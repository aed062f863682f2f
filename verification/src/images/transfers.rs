//! The transfers of a group of teams in a game week, gathered per team for the transfers image.
use super::differentials::team_heading;
use super::player_card::PlayerInfo;
use crate::groups::{keys_distinct, push_to_group, pushed_to_group};
use super::bands::{
    band_count, band_len, band_top, first_heights, is_size_order, lemma_band_count,
    lemma_box_widths, lemma_tallest_bounds, order_by_size, tallest, Placement, nonincreasing,
    lemma_size_order_nonincreasing, lemma_first_heights_reach_band_tops, lemma_band_top_monotone,
    lemma_band_within_height, lemma_first_heights_monotone, lemma_size_order_unique, size_order,
};
use super::util::{calculate_player_card_xs, card_x, lemma_card_x_bounds};
use vstd::prelude::*;

verus! {

/// Identifies a team in the image: the team's name and its manager's name.
#[derive(Debug)]
pub struct TransfersKey {
    pub team_name: String,
    pub user_first_name: String,
    pub user_last_name: String,
}

impl TransfersKey {
    pub fn to_key_string(&self) -> (s: String)
        ensures
            s@ == team_heading(self.user_first_name@, self.user_last_name@, self.team_name@),
    {
        let mut s = self.user_first_name.clone();
        s.append(" ");
        s.append(self.user_last_name.as_str());
        s.append(" (");
        s.append(self.team_name.as_str());
        s.append(")");
        s
    }
}

/// For each team, by its heading, its transfers as pairs of cards, in the order the teams
/// first appeared.
#[derive(Debug)]
pub struct Transfers {
    pub user_to_transfers: Vec<(String, Vec<(PlayerInfo, PlayerInfo)>)>,
}

impl Transfers {
    /// No team heading occurs twice.
    pub open spec fn wf(&self) -> bool {
        keys_distinct(self.user_to_transfers@)
    }

    pub fn new() -> (t: Self)
        ensures
            t.wf(),
            t.user_to_transfers@.len() == 0,
    {
        Self { user_to_transfers: Vec::new() }
    }

    /// Adds the pair of cards under the team's heading.
    pub fn add_transfer(self, key: TransfersKey, in_player: PlayerInfo, out_player: PlayerInfo) -> (t: Self)
        requires
            self.wf(),
        ensures
            t.wf(),
            pushed_to_group(
                self.user_to_transfers@,
                team_heading(key.user_first_name@, key.user_last_name@, key.team_name@),
                (in_player, out_player),
                t.user_to_transfers@,
            ),
    {
        let mut t = self;
        push_to_group(&mut t.user_to_transfers, key.to_key_string(), (in_player, out_player));
        t
    }
}

impl Default for Transfers {
    fn default() -> (t: Self)
        ensures
            t.wf(),
            t.user_to_transfers@.len() == 0,
    {
        Self::new()
    }
}

/// The layout of the transfers image.
#[derive(Debug, Clone, Copy)]
pub struct TransfersRenderer {
    pub width: u32,
    pub transfer_boxes_per_row: u32,
    pub transfer_box_title_height: u32,
    pub player_row_height: u32,
    pub player_card_width: u32,
    pub internal_vertical_padding: u32,
}

impl Default for TransfersRenderer {
    fn default() -> (r: Self)
        ensures
            r.width == 1000 && r.transfer_boxes_per_row == 2 && r.transfer_box_title_height == 80
                && r.player_row_height == 150 && r.player_card_width == 100
                && r.internal_vertical_padding == 20,
    {
        Self {
            width: 1000,
            transfer_boxes_per_row: 2,
            transfer_box_title_height: 80,
            player_row_height: 150,
            player_card_width: 100,
            internal_vertical_padding: 20,
        }
    }
}

impl TransfersRenderer {
    /// The height of a team's box: the title, then one row per transfer. The number of
    /// transfers is taken as a `u32`, as in the drawing code.
    pub fn calculate_transfer_box_height(
        &self,
        transfer_box: &(String, Vec<(PlayerInfo, PlayerInfo)>),
    ) -> (h: u32)
        requires
            self.transfer_box_title_height + (transfer_box.1.len() as u32) * self.player_row_height
                <= u32::MAX,
        ensures
            h == self.transfer_box_title_height + (transfer_box.1.len() as u32) * self.player_row_height,
    {
        proof {
            let n = (transfer_box.1.len() as u32) as int;
            let rh = self.player_row_height as int;
            assert(0 <= n * rh) by (nonlinear_arith)
                requires 0 <= n, 0 <= rh;
        }
        self.transfer_box_title_height + (transfer_box.1.len() as u32 * self.player_row_height)
    }
}

/// Where one transfer of a team box is drawn: the cards of the player out and the player in,
/// and the box between them with the word `to`.
#[derive(Debug, Clone, Copy)]
pub struct TransferRowLayout {
    pub out_card: Placement,
    pub in_card: Placement,
    pub text: Placement,
}

/// Where a team's box is drawn: its title band and its transfers, one row each.
#[derive(Debug)]
pub struct TransferBoxLayout {
    /// The position of the team in `Transfers::user_to_transfers`.
    pub entry: usize,
    pub title: Placement,
    pub rows: Vec<TransferRowLayout>,
}

/// A band of team boxes side by side, with the dividers between their titles.
#[derive(Debug)]
pub struct TransfersBand {
    pub top: u32,
    pub boxes: Vec<TransferBoxLayout>,
    /// The x of each divider, between consecutive boxes.
    pub dividers: Vec<u32>,
    /// Where the dividers end: the bottom of the titles.
    pub divider_bottom: u32,
}

/// Where everything of the transfers image goes.
#[derive(Debug)]
pub struct TransfersLayout {
    pub width: u32,
    pub height: u32,
    pub bands: Vec<TransfersBand>,
}

/// Box `c` of a band, with boxes of width `box_w`, lies within the image and can hold two cards.
pub open spec fn slot_fits(r: TransfersRenderer, c: int, box_w: int) -> bool {
    (c + 1) * box_w <= r.width && 0 <= c * box_w && box_w >= 2 * r.player_card_width
}

/// How many transfers each team made.
pub open spec fn transfer_counts(g: Seq<(String, Vec<(PlayerInfo, PlayerInfo)>)>) -> Seq<usize> {
    g.map_values(|e: (String, Vec<(PlayerInfo, PlayerInfo)>)| e.1@.len() as usize)
}

/// The height of a team box with `count` transfers.
pub open spec fn transfer_box_height(r: TransfersRenderer, count: int) -> int {
    r.transfer_box_title_height + count * r.player_row_height
}

/// The heights of the boxes in drawing order.
pub open spec fn transfer_heights(r: TransfersRenderer, counts: Seq<usize>, order: Seq<usize>) -> Seq<int> {
    Seq::new(order.len(), |p: int| transfer_box_height(r, counts[order[p] as int] as int))
}

/// The height of the cards.
pub open spec fn transfer_card_height(r: TransfersRenderer) -> int {
    r.player_row_height - 2 * r.internal_vertical_padding
}

/// Row `idx` of a box whose left edge is `x`, of width `box_w`, in a band whose top is `top`.
pub open spec fn transfer_row_at(r: TransfersRenderer, x: int, box_w: int, top: int, idx: int) -> TransferRowLayout {
    let card_y = top + r.transfer_box_title_height + idx * r.player_row_height + r.internal_vertical_padding;
    let card_h = transfer_card_height(r);
    let text_w = (box_w - 2 * r.player_card_width) / 4;
    TransferRowLayout {
        out_card: Placement {
            x: (x + card_x(r.player_card_width as int, box_w, 2, 0)) as u32,
            y: card_y as u32,
            width: r.player_card_width,
            height: card_h as u32,
        },
        in_card: Placement {
            x: (x + card_x(r.player_card_width as int, box_w, 2, 1)) as u32,
            y: card_y as u32,
            width: r.player_card_width,
            height: card_h as u32,
        },
        text: Placement { x: (x + (box_w - text_w) / 2) as u32, y: card_y as u32, width: text_w as u32, height: card_h as u32 },
    }
}

/// `bx` draws team `entry`, with `count` transfers, at `x` in the band whose top is `top`.
pub open spec fn is_transfer_box(
    r: TransfersRenderer,
    entry: int,
    count: int,
    x: int,
    box_w: int,
    top: int,
    bx: TransferBoxLayout,
) -> bool {
    &&& bx.entry == entry
    &&& bx.title == Placement { x: x as u32, y: top as u32, width: box_w as u32, height: r.transfer_box_title_height }
    &&& bx.rows@.len() == count
    &&& forall|idx: int| 0 <= idx < count ==> #[trigger] bx.rows@[idx] == transfer_row_at(r, x, box_w, top, idx)
}

/// `band` is band `b` of the boxes in the order `order`.
pub open spec fn is_transfers_band(
    r: TransfersRenderer,
    counts: Seq<usize>,
    order: Seq<usize>,
    b: int,
    band: TransfersBand,
) -> bool {
    let n = counts.len() as int;
    let k = r.transfer_boxes_per_row as int;
    let size = band_len(n, k, b);
    let box_w = r.width / (size as u32);
    let top = band_top(transfer_heights(r, counts, order), k, b);
    &&& band.top == top
    &&& band.divider_bottom == top + r.transfer_box_title_height
    &&& band.boxes@.len() == size
    &&& forall|c: int|
        0 <= c < size ==> is_transfer_box(
            r,
            order[b * k + c] as int,
            counts[order[b * k + c] as int] as int,
            c * box_w,
            box_w as int,
            top,
            #[trigger] band.boxes@[c],
        )
    &&& band.dividers@.len() == size - 1
    &&& forall|i: int| 0 <= i < size - 1 ==> #[trigger] band.dividers@[i] == r.width * (i + 1) / size
}

/// The height of the image of teams with `counts` transfers each: the first boxes of the
/// bands added up, the teams with the most transfers first.
pub open spec fn transfers_height(r: TransfersRenderer, counts: Seq<usize>) -> int {
    let n = counts.len() as int;
    let k = r.transfer_boxes_per_row as int;
    first_heights(transfer_heights(r, counts, size_order(counts)), k, band_count(n, k))
}

/// The boxes fit in the `u32` coordinates they are drawn with, and each can hold its cards.
pub open spec fn transfers_fit(r: TransfersRenderer, counts: Seq<usize>) -> bool {
    let n = counts.len() as int;
    let k = r.transfer_boxes_per_row as int;
    &&& k > 0
    &&& r.player_row_height >= 2 * r.internal_vertical_padding
    &&& n > 0 ==> r.width * ((if n < k { n } else { k }) - 1) <= u32::MAX
    &&& n > 0 ==> (r.width as int) / (if n < k { n } else { k }) >= 2 * r.player_card_width
    &&& transfers_height(r, counts) <= u32::MAX
    &&& forall|e: int| 0 <= e < n ==> #[trigger] counts[e] <= u32::MAX
}

/// `l` lays out teams with `counts` transfers each: the teams with the most transfers first
/// (ties in their order), `transfer_boxes_per_row` to a band, each band as tall as its
/// tallest box, and the image as tall as the first boxes of the bands.
pub open spec fn is_transfers_layout(r: TransfersRenderer, counts: Seq<usize>, l: TransfersLayout) -> bool {
    exists|order: Seq<usize>|
        is_size_order(counts, order) && {
            let n = counts.len() as int;
            let k = r.transfer_boxes_per_row as int;
            &&& l.width == r.width
            &&& l.height == first_heights(transfer_heights(r, counts, order), k, band_count(n, k))
            &&& l.bands@.len() == band_count(n, k)
            &&& forall|b: int| 0 <= b < band_count(n, k) ==> is_transfers_band(r, counts, order, b, #[trigger] l.bands@[b])
        }
}

impl TransfersRenderer {
    fn box_layout(&self, entry: usize, count: usize, x: u32, box_w: u32, top: u32) -> (bx: TransferBoxLayout)
        requires
            self.player_row_height >= 2 * self.internal_vertical_padding,
            box_w >= 2 * self.player_card_width,
            x + box_w <= u32::MAX,
            count <= u32::MAX,
            top + transfer_box_height(*self, count as int) <= u32::MAX,
        ensures
            is_transfer_box(*self, entry as int, count as int, x as int, box_w as int, top as int, bx),
    {
        let card_h = self.player_row_height - 2 * self.internal_vertical_padding;
        let text_w = (box_w - 2 * self.player_card_width) / 4;
        proof {
            lemma_card_x_bounds(self.player_card_width as int, box_w as int, 2, 0);
            lemma_card_x_bounds(self.player_card_width as int, box_w as int, 2, 1);
        }
        let xs = calculate_player_card_xs(self.player_card_width, box_w, 2);
        let mut rows: Vec<TransferRowLayout> = Vec::new();
        let mut idx: usize = 0;
        while idx < count
            invariant
                0 <= idx <= count,
                self.player_row_height >= 2 * self.internal_vertical_padding,
                box_w >= 2 * self.player_card_width,
                x + box_w <= u32::MAX,
                count <= u32::MAX,
                top + transfer_box_height(*self, count as int) <= u32::MAX,
                card_h == transfer_card_height(*self),
                text_w == (box_w - 2 * self.player_card_width) / 4,
                xs@.len() == 2,
                xs@[0] == card_x(self.player_card_width as int, box_w as int, 2, 0),
                xs@[1] == card_x(self.player_card_width as int, box_w as int, 2, 1),
                xs@[0] <= xs@[1] <= box_w,
                rows@.len() == idx,
                forall|j: int| 0 <= j < idx ==> #[trigger] rows@[j] == transfer_row_at(*self, x as int, box_w as int, top as int, j),
            decreases count - idx,
        {
            proof {
                assert((idx as int) * self.player_row_height + self.player_row_height <= (count as int) * self.player_row_height)
                    by (nonlinear_arith)
                    requires idx < count, 0 <= self.player_row_height;
                assert(0 <= (idx as int) * self.player_row_height) by (nonlinear_arith)
                    requires 0 <= idx, 0 <= self.player_row_height;
            }
            let row_y = top + self.transfer_box_title_height + (idx as u32) * self.player_row_height;
            let card_y = row_y + self.internal_vertical_padding;
            assert(card_y + card_h <= top + transfer_box_height(*self, count as int));
            assert((box_w - text_w) / 2 <= box_w);
            let row = TransferRowLayout {
                out_card: Placement { x: x + xs[0], y: card_y, width: self.player_card_width, height: card_h },
                in_card: Placement { x: x + xs[1], y: card_y, width: self.player_card_width, height: card_h },
                text: Placement { x: x + (box_w - text_w) / 2, y: card_y, width: text_w, height: card_h },
            };
            rows.push(row);
            idx = idx + 1;
        }
        TransferBoxLayout {
            entry,
            title: Placement { x, y: top, width: box_w, height: self.transfer_box_title_height },
            rows,
        }
    }

    /// Where everything of the transfers image goes: the teams with the most transfers first
    /// (ties keep their order), `transfer_boxes_per_row` boxes to a band; in each box the
    /// team's title, then a row per transfer with the player out's card, `to`, and the player
    /// in's card.
    pub fn layout(&self, data: &Transfers) -> (l: TransfersLayout)
        requires
            transfers_fit(*self, transfer_counts(data.user_to_transfers@)),
        ensures
            is_transfers_layout(*self, transfer_counts(data.user_to_transfers@), l),
    {
        let ghost g = data.user_to_transfers@;
        let mut counts: Vec<usize> = Vec::new();
        let mut i: usize = 0;
        while i < data.user_to_transfers.len()
            invariant
                g == data.user_to_transfers@,
                0 <= i <= g.len(),
                counts@ == transfer_counts(g).take(i as int),
            decreases g.len() - i,
        {
            counts.push(data.user_to_transfers[i].1.len());
            assert(counts@ =~= transfer_counts(g).take(i + 1));
            i = i + 1;
        }
        assert(counts@ =~= transfer_counts(g));
        let ghost cs = counts@;
        let order = order_by_size(&counts);
        let ghost os = order@;
        let ghost hs = transfer_heights(*self, cs, os);
        let n = counts.len();
        let k = self.transfer_boxes_per_row as usize;
        proof {
            lemma_size_order_unique(cs, os);
            lemma_size_order_nonincreasing(cs, os);
            assert forall|p: int| 0 <= p < hs.len() implies 0 <= #[trigger] hs[p] by {
                let c1 = cs[os[p] as int] as int;
                assert(0 <= c1 * (self.player_row_height as int)) by (nonlinear_arith)
                    requires c1 >= 0, self.player_row_height >= 0;
            }
            assert(nonincreasing(hs)) by {
                assert forall|p: int, q: int| 0 <= p <= q < hs.len() implies #[trigger] hs[p] >= #[trigger] hs[q] by {
                    let c1 = cs[os[p] as int] as int;
                    let c2 = cs[os[q] as int] as int;
                    assert(c1 >= c2);
                    assert(c1 * (self.player_row_height as int) >= c2 * (self.player_row_height as int))
                        by (nonlinear_arith)
                        requires c1 >= c2, c2 >= 0, self.player_row_height >= 0;
                }
            }
            lemma_band_count(n as int, k as int, 0);
        }
        let mut bands: Vec<TransfersBand> = Vec::new();
        let mut start: usize = 0;
        let mut top: u32 = 0;
        let mut total: u32 = 0;
        let ghost mut b: int = 0;
        while start < n
            invariant
                cs == counts@,
                os == order@,
                n == cs.len(),
                os.len() == n,
                forall|p: int| 0 <= p < n ==> #[trigger] os[p] < n,
                is_size_order(cs, os),
                hs == transfer_heights(*self, cs, os),
                transfers_fit(*self, cs),
                k == self.transfer_boxes_per_row,
                forall|p: int| 0 <= p < hs.len() ==> 0 <= #[trigger] hs[p],
                nonincreasing(hs),
                first_heights(hs, k as int, band_count(n as int, k as int)) <= u32::MAX,
                0 <= b,
                start == (if b * (k as int) <= n { b * k } else { n as int }),
                start < n ==> b < band_count(n as int, k as int),
                start >= n ==> b == band_count(n as int, k as int),
                top == band_top(hs, k as int, b),
                total == first_heights(hs, k as int, b),
                bands@.len() == b,
                forall|bb: int| 0 <= bb < b ==> is_transfers_band(*self, cs, os, bb, #[trigger] bands@[bb]),
            decreases n - start,
        {
            proof {
                lemma_band_count(n as int, k as int, b);
                assert(start == b * k);
                assert((b - 1) * k < n) by (nonlinear_arith)
                    requires b * k < n, k > 0;
                lemma_band_within_height(hs, k as int, b);
                assert((b + 1) * k == b * k + k) by (nonlinear_arith);
            }
            let size: usize = if n - start < k { n - start } else { k };
            assert(size == band_len(n as int, k as int, b));
            assert(forall|p: int| start <= p < n ==> top + #[trigger] hs[p] <= u32::MAX);
            let box_w = self.width / (size as u32);
            proof {
                let most: int = if n < k { n as int } else { k as int };
                assert forall|c: int| 0 <= c < size implies #[trigger] slot_fits(*self, c, box_w as int) by {
                    lemma_box_widths(self.width as int, size as int, most, c);
                }
            }
            let mut boxes: Vec<TransferBoxLayout> = Vec::new();
            let mut tall: u32 = 0;
            let mut c: usize = 0;
            while c < size
                invariant
                    cs == counts@,
                    os == order@,
                    n == cs.len(),
                    os.len() == n,
                    forall|p: int| 0 <= p < n ==> #[trigger] os[p] < n,
                    hs == transfer_heights(*self, cs, os),
                    transfers_fit(*self, cs),
                    forall|p: int| 0 <= p < hs.len() ==> 0 <= #[trigger] hs[p],
                    forall|p: int| start <= p < n ==> top + #[trigger] hs[p] <= u32::MAX,
                    start == b * k,
                    start + size <= n,
                    0 < size <= k,
                    k == self.transfer_boxes_per_row,
                    size == band_len(n as int, k as int, b),
                    box_w == self.width / (size as u32),
                    forall|c2: int| 0 <= c2 < size ==> #[trigger] slot_fits(*self, c2, box_w as int),
                    top == band_top(hs, k as int, b),
                    0 <= c <= size,
                    tall == tallest(hs, start as int, c as int),
                    boxes@.len() == c,
                    forall|c2: int| 0 <= c2 < c ==> is_transfer_box(
                        *self,
                        os[b * k + c2] as int,
                        cs[os[b * k + c2] as int] as int,
                        c2 * box_w,
                        box_w as int,
                        top as int,
                        #[trigger] boxes@[c2],
                    ),
                decreases size - c,
            {
                assert(slot_fits(*self, c as int, box_w as int));
                assert((c as int + 1) * (box_w as int) == (c as int) * (box_w as int) + box_w) by (nonlinear_arith);
                let entry = order[start + c];
                let count = counts[entry];
                assert(hs[start + c] == transfer_box_height(*self, count as int));
                let x = (c as u32) * box_w;
                let bx = self.box_layout(entry, count, x, box_w, top);
                boxes.push(bx);
                proof {
                    assert(0 <= (count as int) * self.player_row_height) by (nonlinear_arith)
                        requires 0 <= count, 0 <= self.player_row_height;
                }
                let h = self.transfer_box_title_height + (count as u32) * self.player_row_height;
                if h > tall {
                    tall = h;
                }
                c = c + 1;
            }
            let ghost most: int = if n < k { n as int } else { k as int };
            assert(size <= most);
            assert(self.width * (most - 1) <= u32::MAX);
            let mut dividers: Vec<u32> = Vec::new();
            let mut d: usize = 1;
            while d < size
                invariant
                    1 <= d <= size || size == 0,
                    size <= most,
                    size <= k,
                    k == self.transfer_boxes_per_row,
                    self.width * (most - 1) <= u32::MAX,
                    dividers@.len() == if d >= 1 { d - 1 } else { 0 },
                    forall|i2: int| 0 <= i2 < dividers@.len() ==> #[trigger] dividers@[i2] == self.width * (i2 + 1) / (size as int),
                decreases size - d,
            {
                proof {
                    assert((self.width as int) * (d as int) <= (self.width as int) * (most - 1)) by (nonlinear_arith)
                        requires d <= most - 1, 0 <= self.width;
                }
                dividers.push(self.width * (d as u32) / (size as u32));
                d = d + 1;
            }
            let ghost old_bands = bands@;
            let band = TransfersBand { top, boxes, dividers, divider_bottom: top + self.transfer_box_title_height };
            proof {
                assert(hs[start as int] == transfer_box_height(*self, cs[os[start as int] as int] as int));
            }
            let first_count = counts[order[start]];
            total = total + self.transfer_box_title_height + (first_count as u32) * self.player_row_height;
            top = top + tall;
            bands.push(band);
            proof {
                assert(is_transfers_band(*self, cs, os, b, bands@[b]));
                assert forall|bb: int| 0 <= bb < b + 1 implies is_transfers_band(*self, cs, os, bb, #[trigger] bands@[bb]) by {
                    if bb < b {
                        assert(bands@[bb] == old_bands[bb]);
                    }
                }
                b = b + 1;
            }
            start = start + size;
            proof {
                lemma_band_count(n as int, k as int, b);
                assert(b * k == (b - 1) * k + k) by (nonlinear_arith);
            }
        }
        TransfersLayout { width: self.width, height: total, bands }
    }
}


/// Every team box lies within the image: the teams come largest first, so each band is as
/// tall as its first box, and the image, as tall as the first boxes added up, reaches the
/// bottom of every box.
pub proof fn lemma_transfer_boxes_within_image(r: TransfersRenderer, counts: Seq<usize>, l: TransfersLayout)
    requires
        transfers_fit(r, counts),
        counts.len() <= usize::MAX,
        forall|i: int| 0 <= i < counts.len() ==> #[trigger] counts[i] <= i64::MAX,
        is_transfers_layout(r, counts, l),
    ensures
        forall|b: int, c: int|
            0 <= b < l.bands@.len() && 0 <= c < l.bands@[b].boxes@.len() ==> l.bands@[b].top + transfer_box_height(
                r,
                (#[trigger] l.bands@[b].boxes@[c]).rows@.len() as int,
            ) <= l.height,
{
    let order = choose|order: Seq<usize>|
        is_size_order(counts, order) && {
            let n = counts.len() as int;
            let k = r.transfer_boxes_per_row as int;
            &&& l.width == r.width
            &&& l.height == first_heights(transfer_heights(r, counts, order), k, band_count(n, k))
            &&& l.bands@.len() == band_count(n, k)
            &&& forall|b: int| 0 <= b < band_count(n, k) ==> is_transfers_band(r, counts, order, b, #[trigger] l.bands@[b])
        };
    let n = counts.len() as int;
    let k = r.transfer_boxes_per_row as int;
    let hs = transfer_heights(r, counts, order);
    lemma_size_order_nonincreasing(counts, order);
    assert forall|p: int| 0 <= p < hs.len() implies 0 <= #[trigger] hs[p] by {
        let c1 = counts[order[p] as int] as int;
            assert(0 <= c1 * (r.player_row_height as int)) by (nonlinear_arith)
                requires c1 >= 0, r.player_row_height >= 0;
    }
    assert(nonincreasing(hs)) by {
        assert forall|p: int, q: int| 0 <= p <= q < hs.len() implies #[trigger] hs[p] >= #[trigger] hs[q] by {
            let c1 = counts[order[p] as int] as int;
            let c2 = counts[order[q] as int] as int;
            assert(c1 >= c2);
            assert(c1 * (r.player_row_height as int) >= c2 * (r.player_row_height as int)) by (nonlinear_arith)
                requires c1 >= c2, c2 >= 0, r.player_row_height >= 0;
        }
    }
    lemma_band_count(n, k, 0);
    lemma_first_heights_reach_band_tops(hs, k, band_count(n, k));
    assert forall|b: int, c: int|
        0 <= b < l.bands@.len() && 0 <= c < l.bands@[b].boxes@.len() implies l.bands@[b].top + transfer_box_height(
            r,
            (#[trigger] l.bands@[b].boxes@[c]).rows@.len() as int,
        ) <= l.height by {
        let band = l.bands@[b];
        assert(is_transfers_band(r, counts, order, b, band));
        lemma_band_count(n, k, b);
        assert(0 <= b * k) by (nonlinear_arith)
            requires b >= 0, k > 0;
        assert((b + 1) * k == b * k + k) by (nonlinear_arith);
        let len = band_len(n, k, b);
        assert(b * k + len <= n);
        let bound = hs[0];
        lemma_tallest_bounds(hs, b * k, len, bound);
        assert(hs[b * k + c] == transfer_box_height(r, band.boxes@[c].rows@.len() as int));
        lemma_band_top_monotone(hs, k, b + 1, band_count(n, k));
    }
}

impl TransfersRenderer {
    /// Whether the transfers can be laid out: the image fits its `u32` coordinates and every
    /// box can hold its cards.
    pub fn fits(&self, data: &Transfers) -> (b: bool)
        ensures
            b == transfers_fit(*self, transfer_counts(data.user_to_transfers@)),
    {
        let ghost counts = transfer_counts(data.user_to_transfers@);
        let n = data.user_to_transfers.len();
        let k = self.transfer_boxes_per_row as u64;
        let max: u128 = 0xffff_ffff;
        if k == 0 || (self.player_row_height as u64) < 2 * (self.internal_vertical_padding as u64) {
            return false;
        }
        if n > 0 {
            let most = if (n as u64) < k { n as u64 } else { k };
            proof {
                assert((self.width as int) * (most as int - 1) <= 0xffff_ffff * 0xffff_ffff) by (nonlinear_arith)
                    requires self.width <= 0xffff_ffff, 1 <= most <= 0xffff_ffff;
                assert(0 <= (self.width as int) * (most as int - 1)) by (nonlinear_arith)
                    requires 0 <= self.width, 1 <= most;
            }
            if (self.width as u128) * ((most - 1) as u128) > max {
                return false;
            }
            if (self.width as u64) / most < 2 * (self.player_card_width as u64) {
                return false;
            }
        }
        let mut sizes: Vec<usize> = Vec::new();
        let mut e: usize = 0;
        while e < n
            invariant
                n == counts.len(),
                n == data.user_to_transfers@.len(),
                max == 0xffff_ffff,
                counts == transfer_counts(data.user_to_transfers@),
                0 <= e <= n,
                sizes@ == counts.take(e as int),
                forall|j: int| 0 <= j < e ==> #[trigger] counts[j] <= u32::MAX,
            decreases n - e,
        {
            let count = data.user_to_transfers[e].1.len();
            assert(count == counts[e as int]);
            if count as u128 > max {
                proof {
                    assert(!(counts[e as int] <= u32::MAX));
                }
                return false;
            }
            sizes.push(count);
            assert(sizes@ =~= counts.take(e + 1));
            e = e + 1;
        }
        assert(sizes@ =~= counts);
        let order = order_by_size(&sizes);
        let ghost os = order@;
        let ghost hs = transfer_heights(*self, counts, os);
        let kk = self.transfer_boxes_per_row as usize;
        let row_h = self.player_row_height as u128;
        proof {
            lemma_size_order_unique(counts, os);
            assert forall|p: int| 0 <= p < hs.len() implies 0 <= #[trigger] hs[p] by {
                let c1 = counts[os[p] as int] as int;
                assert(0 <= c1 * (self.player_row_height as int)) by (nonlinear_arith)
                    requires c1 >= 0, self.player_row_height >= 0;
            }
            lemma_band_count(n as int, kk as int, 0);
        }
        let mut total: u128 = 0;
        let mut start: usize = 0;
        let ghost mut b: int = 0;
        while start < n
            invariant
                counts == transfer_counts(data.user_to_transfers@),
                n == counts.len(),
                n == sizes@.len(),
                sizes@ == counts,
                os == order@,
                os.len() == n,
                forall|p: int| 0 <= p < n ==> #[trigger] os[p] < n,
                forall|j: int| 0 <= j < n ==> #[trigger] counts[j] <= u32::MAX,
                hs == transfer_heights(*self, counts, os),
                forall|p: int| 0 <= p < hs.len() ==> 0 <= #[trigger] hs[p],
                size_order(counts) == os,
                max == 0xffff_ffff,
                row_h == self.player_row_height,
                kk == self.transfer_boxes_per_row,
                kk > 0,
                0 <= b,
                start == (if b * (kk as int) <= n { b * kk } else { n as int }),
                start < n ==> b < band_count(n as int, kk as int),
                start >= n ==> b == band_count(n as int, kk as int),
                total == first_heights(hs, kk as int, b),
                total <= max,
            decreases n - start,
        {
            proof {
                lemma_band_count(n as int, kk as int, b);
                assert(start == b * kk);
            }
            let count = sizes[order[start]];
            assert(hs[start as int] == transfer_box_height(*self, count as int));
            proof {
                assert((count as int) * (row_h as int) <= 0xffff_ffff * 0xffff_ffff) by (nonlinear_arith)
                    requires count <= 0xffff_ffff, row_h <= 0xffff_ffff;
            }
            total = total + self.transfer_box_title_height as u128 + (count as u128) * row_h;
            if total > max {
                proof {
                    assert(first_heights(hs, kk as int, b + 1) == first_heights(hs, kk as int, b) + hs[b * kk]);
                    lemma_first_heights_monotone(hs, kk as int, b + 1, band_count(n as int, kk as int));
                    assert(transfers_height(*self, counts) > u32::MAX);
                    assert(!transfers_fit(*self, counts));
                }
                return false;
            }
            proof {
                b = b + 1;
                lemma_band_count(n as int, kk as int, b);
                assert(b * kk == (b - 1) * kk + kk) by (nonlinear_arith);
            }
            start = if n - start <= kk { n } else { start + kk };
        }
        true
    }
}

} // verus!
