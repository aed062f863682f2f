//! The players only one team of a mini league owns, for the unique players image.
use super::bands::{band_count, band_len, lemma_band_count, Placement};
use super::colours::{GREY_COLOUR, OFF_WHITE_COLOUR, PURPLE_COLOUR, WHITE_COLOUR};
use super::util::{calculate_player_card_xs, card_x, lemma_card_x_bounds};
use super::player_card::{new_card, CardColours, PlayerCard, PlayerGameInfo, PlayerInfo};
use vstd::prelude::*;

verus! {

/// The cards of a team's unique players, in the order they were added.
#[derive(Debug)]
pub struct UniquePlayers {
    pub players: Vec<PlayerInfo>,
}

/// The card of a unique player: the opponents as free text, greyed out when the player is
/// benched (multiplier 0).
pub open spec fn unique_card(
    name: Seq<char>,
    code: u32,
    multiplier: i16,
    is_captain: bool,
    is_vice_captain: bool,
    opponents: String,
) -> PlayerCard {
    let card = new_card(name, code, seq![PlayerGameInfo::FreeText(opponents)], is_captain, is_vice_captain);
    PlayerCard {
        colours: CardColours {
            status_active_bg: if multiplier == 0 { GREY_COLOUR@ } else { PURPLE_COLOUR@ },
            ..card.colours
        },
        ..card
    }
}

impl UniquePlayers {
    pub fn new() -> (u: Self)
        ensures
            u.players@.len() == 0,
    {
        Self { players: Vec::new() }
    }

    pub fn add_player(
        self,
        name: String,
        code: u32,
        multiplier: i16,
        is_captain: bool,
        is_vice_captain: bool,
        opponents: String,
    ) -> (u: Self)
        ensures
            u.players@.len() == self.players@.len() + 1,
            u.players@.drop_last() == self.players@,
            u.players@.last()@ == unique_card(name@, code, multiplier, is_captain, is_vice_captain, opponents),
    {
        let ghost name_view = name@;
        let ghost opp = opponents;
        let mut games: Vec<PlayerGameInfo> = Vec::new();
        games.push(PlayerGameInfo::FreeText(opponents));
        assert(games@ =~= seq![PlayerGameInfo::FreeText(opp)]);
        let bg_colour = if multiplier == 0 { GREY_COLOUR } else { PURPLE_COLOUR };
        let mut card = PlayerInfo::new(name, code, games, is_captain, is_vice_captain);
        card.status_active_bg_color(bg_colour.to_owned());
        let mut u = self;
        u.players.push(card);
        assert(u.players@.drop_last() =~= self.players@);
        u
    }
}

impl Default for UniquePlayers {
    fn default() -> (u: Self)
        ensures
            u.players@.len() == 0,
    {
        Self::new()
    }
}

/// The layout of the unique players image.
#[derive(Debug, Clone, Copy)]
pub struct UniqueRenderer {
    pub width: u32,
    pub player_row_height: u32,
    pub player_card_width: u32,
    pub players_per_row: usize,
    pub internal_vertical_padding: u32,
}

impl Default for UniqueRenderer {
    fn default() -> (r: Self)
        ensures
            r.width == 1000 && r.player_row_height == 300 && r.player_card_width == 200
                && r.players_per_row == 3 && r.internal_vertical_padding == 20,
    {
        Self {
            width: 1000,
            player_row_height: 300,
            player_card_width: 200,
            players_per_row: 3,
            internal_vertical_padding: 20,
        }
    }
}

/// Where one row of the unique players image is drawn.
#[derive(Debug)]
pub struct UniqueRowLayout {
    pub y: u32,
    pub fill: String,
    /// The y of the line along the top of the row: one above the row, wrapping round to
    /// `u32::MAX` for the first row as the drawing arithmetic does.
    pub border_y: u32,
    /// The cards of the row, in the order of the players.
    pub cards: Vec<Placement>,
}

/// Where everything of the unique players image goes.
#[derive(Debug)]
pub struct UniqueLayout {
    pub width: u32,
    pub height: u32,
    pub rows: Vec<UniqueRowLayout>,
}

/// The background of row `r`: white and off-white in turn.
pub open spec fn unique_row_fill(r: int) -> Seq<char> {
    if r % 2 == 0 {
        WHITE_COLOUR@
    } else {
        OFF_WHITE_COLOUR@
    }
}

/// `row` is row `r` of the image of `n` players.
pub open spec fn is_unique_row(u: UniqueRenderer, n: int, r: int, row: UniqueRowLayout) -> bool {
    let k = u.players_per_row as int;
    let in_row = band_len(n, k, r);
    let y = r * u.player_row_height;
    &&& row.y == y
    &&& row.fill@ == unique_row_fill(r)
    &&& row.border_y == (if y == 0 { u32::MAX as int } else { y - 1 })
    &&& row.cards@.len() == in_row
    &&& forall|c: int| 0 <= c < in_row ==> #[trigger] row.cards@[c] == (Placement {
        x: card_x(u.player_card_width as int, u.width as int, in_row, c) as u32,
        y: (y + u.internal_vertical_padding) as u32,
        width: u.player_card_width,
        height: (u.player_row_height - 2 * u.internal_vertical_padding) as u32,
    })
}

/// The image of `n` players fits in the `u32` coordinates it is drawn with.
pub open spec fn unique_fits(u: UniqueRenderer, n: int) -> bool {
    let k = u.players_per_row as int;
    let most = if n < k { n } else { k };
    &&& k > 0
    &&& band_count(n, k) <= u32::MAX
    &&& u.player_row_height >= 2 * u.internal_vertical_padding
    &&& n > 0 ==> most < u32::MAX && u.player_card_width * most <= u32::MAX
    &&& band_count(n, k) * u.player_row_height <= u32::MAX
}

impl UniqueRenderer {
    /// Where everything of the unique players image goes: the players `players_per_row` to a
    /// row, each row spread over the width, rows one under the other.
    pub fn layout(&self, data: &UniquePlayers) -> (l: UniqueLayout)
        requires
            unique_fits(*self, data.players@.len() as int),
        ensures
            l.width == self.width,
            l.height == band_count(data.players@.len() as int, self.players_per_row as int) * self.player_row_height,
            l.rows@.len() == band_count(data.players@.len() as int, self.players_per_row as int),
            forall|r: int| 0 <= r < l.rows@.len() ==> is_unique_row(*self, data.players@.len() as int, r, #[trigger] l.rows@[r]),
    {
        let n = data.players.len();
        let k = self.players_per_row;
        let card_h = self.player_row_height - 2 * self.internal_vertical_padding;
        proof {
            lemma_band_count(n as int, k as int, 0);
        }
        let num_rows = if n == 0 { 0 } else { (n - 1) / k + 1 };
        proof {
            if n == 0 {
                vstd::arithmetic::div_mod::lemma_basic_div(k as int - 1, k as int);
            } else {
                vstd::arithmetic::div_mod::lemma_div_plus_one(n as int - 1, k as int);
            }
        }
        assert(num_rows == band_count(n as int, k as int));
        proof {
            assert(0 <= (num_rows as int) * self.player_row_height) by (nonlinear_arith)
                requires 0 <= num_rows, 0 <= self.player_row_height;
        }
        let height = (num_rows as u32) * self.player_row_height;
        let mut rows: Vec<UniqueRowLayout> = Vec::new();
        let mut start: usize = 0;
        let mut r: usize = 0;
        while start < n
            invariant
                n == data.players@.len(),
                k == self.players_per_row,
                unique_fits(*self, n as int),
                card_h == self.player_row_height - 2 * self.internal_vertical_padding,
                num_rows == band_count(n as int, k as int),
                start == (if (r as int) * (k as int) <= n { r * k } else { n as int }),
                start < n ==> r < num_rows,
                start >= n ==> r == num_rows,
                rows@.len() == r,
                forall|r2: int| 0 <= r2 < r ==> is_unique_row(*self, n as int, r2, #[trigger] rows@[r2]),
            decreases n - start,
        {
            proof {
                lemma_band_count(n as int, k as int, r as int);
                assert(start == r * k);
                assert((r as int + 1) * (k as int) == (r as int) * (k as int) + k) by (nonlinear_arith);
                assert((r as int) * self.player_row_height + self.player_row_height <= (num_rows as int) * self.player_row_height)
                    by (nonlinear_arith)
                    requires r < num_rows, 0 <= self.player_row_height;
                assert(0 <= (r as int) * self.player_row_height) by (nonlinear_arith)
                    requires 0 <= r, 0 <= self.player_row_height;
            }
            let in_row: usize = if n - start < k { n - start } else { k };
            assert(in_row == band_len(n as int, k as int, r as int));
            let y = (r as u32) * self.player_row_height;
            let fill = if r % 2 == 0 { WHITE_COLOUR.to_owned() } else { OFF_WHITE_COLOUR.to_owned() };
            let border_y = y.wrapping_sub(1);
            proof {
                let most: int = if n < k { n as int } else { k as int };
                assert(in_row <= most);
                assert(self.player_card_width * (in_row as int) <= self.player_card_width * most) by (nonlinear_arith)
                    requires in_row <= most, 0 <= self.player_card_width;
            }
            let xs = calculate_player_card_xs(self.player_card_width, self.width, in_row as u32);
            let mut cards: Vec<Placement> = Vec::new();
            let mut c: usize = 0;
            while c < in_row
                invariant
                    0 <= c <= in_row,
                    in_row <= k,
                    k == self.players_per_row,
                    unique_fits(*self, n as int),
                    xs@.len() == in_row,
                    forall|i: int| 0 <= i < in_row ==> #[trigger] xs@[i] == card_x(
                        self.player_card_width as int,
                        self.width as int,
                        in_row as int,
                        i,
                    ),
                    cards@.len() == c,
                    forall|c2: int| 0 <= c2 < c ==> #[trigger] cards@[c2] == (Placement {
                        x: xs@[c2],
                        y: (y + self.internal_vertical_padding) as u32,
                        width: self.player_card_width,
                        height: card_h,
                    }),
                    y + self.player_row_height <= u32::MAX,
                    card_h == self.player_row_height - 2 * self.internal_vertical_padding,
                decreases in_row - c,
            {
                cards.push(Placement { x: xs[c], y: y + self.internal_vertical_padding, width: self.player_card_width, height: card_h });
                c = c + 1;
            }
            rows.push(UniqueRowLayout { y, fill, border_y, cards });
            start = start + in_row;
            r = r + 1;
            proof {
                lemma_band_count(n as int, k as int, r as int);
                assert((r as int) * (k as int) == (r as int - 1) * (k as int) + k) by (nonlinear_arith);
            }
        }
        UniqueLayout { width: self.width, height, rows }
    }

    /// Whether the image of `n` players fits in the `u32` coordinates it is drawn with.
    pub fn fits(&self, n: usize) -> (b: bool)
        ensures
            b == unique_fits(*self, n as int),
    {
        let max: u128 = 0xffff_ffff;
        let k = self.players_per_row as u128;
        if k == 0 {
            return false;
        }
        let rows = (n as u128 + k - 1) / k;
        assert(rows == band_count(n as int, k as int));
        if rows > max || (self.player_row_height as u64) < 2 * (self.internal_vertical_padding as u64) {
            return false;
        }
        let card_w = self.player_card_width as u128;
        let row_h = self.player_row_height as u128;
        proof {
            assert(rows * row_h <= 0xffff_ffff * 0xffff_ffff) by (nonlinear_arith)
                requires rows <= 0xffff_ffff, row_h <= 0xffff_ffff;
        }
        if rows * row_h > max {
            return false;
        }
        if n == 0 {
            return true;
        }
        let most: u128 = if (n as u128) < k { n as u128 } else { k };
        if most >= max {
            return false;
        }
        proof {
            assert(card_w * most <= 0xffff_ffff * 0xffff_ffff) by (nonlinear_arith)
                requires card_w <= 0xffff_ffff, most <= 0xffff_ffff;
        }
        card_w * most <= max
    }
}

} // verus!
