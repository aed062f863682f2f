//! Shared drawing vocabulary and the horizontal layout of rows of player cards.
use vstd::prelude::*;

verus! {

/// Weights of the drawing font, from thinnest to heaviest.
#[derive(Debug, Clone, Copy, PartialEq, Eq, Structural)]
pub enum FontWeight {
    UltraThin,
    Thin,
    Light,
    Regular,
    Medium,
    SemiBold,
    Bold,
    ExtraBold,
    Black,
}

/// The CSS number of a font weight.
pub open spec fn font_weight_number(w: FontWeight) -> Seq<char> {
    match w {
        FontWeight::UltraThin => "100"@,
        FontWeight::Thin => "200"@,
        FontWeight::Light => "300"@,
        FontWeight::Regular => "400"@,
        FontWeight::Medium => "500"@,
        FontWeight::SemiBold => "600"@,
        FontWeight::Bold => "700"@,
        FontWeight::ExtraBold => "800"@,
        FontWeight::Black => "900"@,
    }
}

impl FontWeight {
    pub fn to_number(self) -> (s: &'static str)
        ensures
            s@ == font_weight_number(self),
    {
        match self {
            FontWeight::UltraThin => "100",
            FontWeight::Thin => "200",
            FontWeight::Light => "300",
            FontWeight::Regular => "400",
            FontWeight::Medium => "500",
            FontWeight::SemiBold => "600",
            FontWeight::Bold => "700",
            FontWeight::ExtraBold => "800",
            FontWeight::Black => "900",
        }
    }
}

impl Default for FontWeight {
    fn default() -> (w: Self)
        ensures
            w == FontWeight::Medium,
    {
        FontWeight::Medium
    }
}

/// Which corners of a text box are rounded (`Square`: none of them).
#[derive(Debug, Clone, Copy, PartialEq, Eq, Structural)]
pub enum CornerRounding {
    All,
    Top,
    Bottom,
    Square,
}

impl Default for CornerRounding {
    fn default() -> (r: Self)
        ensures
            r == CornerRounding::All,
    {
        CornerRounding::All
    }
}

/// The gap left between and around `num_cards` cards of width `card_width` in a row of
/// width `total_width`: the space the cards leave free, split evenly over `num_cards + 1` gaps.
pub open spec fn card_gap(card_width: int, total_width: int, num_cards: int) -> int {
    let used = card_width * num_cards;
    let free = if total_width > used { total_width - used } else { 0 };
    free / (num_cards + 1)
}

/// The left edge of card `i` of the row.
pub open spec fn card_x(card_width: int, total_width: int, num_cards: int, i: int) -> int {
    let gap = card_gap(card_width, total_width, num_cards);
    gap + i * (card_width + gap)
}

pub proof fn lemma_card_x_bounds(w: int, total: int, n: int, i: int)
    requires
        0 <= w,
        0 <= total,
        1 <= n,
        0 <= i < n,
    ensures
        0 <= card_gap(w, total, n),
        card_gap(w, total, n) * (n + 1) <= (if total > w * n { total - w * n } else { 0 }),
        card_x(w, total, n, i) <= card_x(w, total, n, n - 1),
        w * n <= total ==> card_x(w, total, n, n - 1) + w + card_gap(w, total, n) <= total,
        w * n > total ==> card_x(w, total, n, n - 1) == (n - 1) * w,
        w + card_gap(w, total, n) <= (if w * n > total { w } else { total }),
{
    let gap = card_gap(w, total, n);
    let free = if total > w * n { total - w * n } else { 0 };
    assert(0 <= w * n) by (nonlinear_arith)
        requires 0 <= w, 1 <= n;
    assert(gap * (n + 1) <= free && 0 <= gap) by (nonlinear_arith)
        requires gap == free / (n + 1), 0 <= free, 1 <= n;
    assert(i * (w + gap) <= (n - 1) * (w + gap)) by (nonlinear_arith)
        requires 0 <= i < n, 0 <= w, 0 <= gap;
    assert(gap + (n - 1) * (w + gap) == n * gap + (n - 1) * w) by (nonlinear_arith);
    assert(gap * (n + 1) == n * gap + gap) by (nonlinear_arith);
    assert(w * n == (n - 1) * w + w) by (nonlinear_arith);
    if w * n > total {
        assert(free == 0);
        assert(gap == 0);
    } else {
        assert(w <= w * n) by (nonlinear_arith)
            requires 0 <= w, 1 <= n;
        assert(w + gap <= total) by (nonlinear_arith)
            requires gap * (n + 1) <= total - w * n, 0 <= gap, w <= w * n, 1 <= n, w * n <= total;
    }
}

/// The left edges of `num_cards` cards of width `player_card_width` spread evenly over a
/// row of width `total_width`, with equal gaps before, between and after the cards.
pub fn calculate_player_card_xs(player_card_width: u32, total_width: u32, num_cards: u32) -> (xs: Vec<u32>)
    requires
        player_card_width * num_cards <= u32::MAX,
        num_cards < u32::MAX,
    ensures
        xs.len() == num_cards,
        forall|i: int| 0 <= i < num_cards ==> #[trigger] xs[i] as int == card_x(
            player_card_width as int,
            total_width as int,
            num_cards as int,
            i,
        ),
{
    let total_box_width = player_card_width * num_cards;
    let remaining_space = total_width.saturating_sub(total_box_width);
    let gaps = num_cards + 1;
    let gap_width = remaining_space / gaps;
    let mut xs: Vec<u32> = Vec::new();
    let mut i: u32 = 0;
    while i < num_cards
        invariant
            0 <= i <= num_cards,
            num_cards < u32::MAX,
            player_card_width * num_cards <= u32::MAX,
            total_box_width == player_card_width * num_cards,
            gap_width == card_gap(player_card_width as int, total_width as int, num_cards as int),
            xs.len() == i,
            forall|j: int| 0 <= j < i ==> #[trigger] xs[j] as int == card_x(
                player_card_width as int,
                total_width as int,
                num_cards as int,
                j,
            ),
        decreases num_cards - i,
    {
        proof {
            lemma_card_x_bounds(player_card_width as int, total_width as int, num_cards as int, i as int);
            let w = player_card_width as int;
            let g = gap_width as int;
            assert(i as int * (w + g) <= (num_cards - 1) * (w + g)) by (nonlinear_arith)
                requires 0 <= i < num_cards, 0 <= w, 0 <= g;
            assert((num_cards - 1) * w <= w * num_cards) by (nonlinear_arith)
                requires 1 <= num_cards, 0 <= w;
            assert(card_x(w, total_width as int, num_cards as int, num_cards - 1) <= u32::MAX);
        }
        let x = gap_width + i * (player_card_width + gap_width);
        xs.push(x);
        i = i + 1;
    }
    xs
}

/// Cards laid out by `calculate_player_card_xs` keep their order without overlapping, and when
/// they fit in the row they stay inside it with at least one gap to spare on the right.
pub proof fn lemma_player_cards_fit(card_width: int, total_width: int, num_cards: int, i: int)
    requires
        0 <= card_width,
        0 <= total_width,
        0 <= i,
        i + 1 < num_cards,
    ensures
        card_x(card_width, total_width, num_cards, i) + card_width <= card_x(
            card_width,
            total_width,
            num_cards,
            i + 1,
        ),
        card_width * num_cards <= total_width ==> card_x(card_width, total_width, num_cards, i + 1)
            + card_width <= total_width,
{
    let gap = card_gap(card_width, total_width, num_cards);
    lemma_card_x_bounds(card_width, total_width, num_cards, i + 1);
    assert(card_x(card_width, total_width, num_cards, i + 1) == card_x(card_width, total_width, num_cards, i) + card_width + gap) by (nonlinear_arith)
        requires gap == card_gap(card_width, total_width, num_cards);
}

} // verus!
