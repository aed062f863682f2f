//! Boxes laid out in bands: the boxes ordered from largest to smallest, cut into bands of a
//! fixed number of boxes side by side, each band as tall as its tallest box.
use crate::sorting::{is_stable_sort_desc, sort_by_key_desc};
use vstd::prelude::*;

verus! {

/// Where a rectangle is drawn: its top left corner and its size.
#[derive(Debug, Clone, Copy, PartialEq, Eq)]
pub struct Placement {
    pub x: u32,
    pub y: u32,
    pub width: u32,
    pub height: u32,
}

/// The sizes keyed by themselves, each with its index.
pub open spec fn size_keyed(sizes: Seq<usize>) -> Seq<(i64, usize)> {
    Seq::new(sizes.len(), |i: int| (sizes[i] as i64, i as usize))
}

/// `order` lists the indices of `sizes` from the largest size to the smallest, indices with
/// equal sizes in their own order.
pub open spec fn is_size_order(sizes: Seq<usize>, order: Seq<usize>) -> bool {
    exists|sorted: Seq<(i64, usize)>|
        is_stable_sort_desc(size_keyed(sizes), sorted) && order == sorted.map_values(|x: (i64, usize)| x.1)
}

/// The order of the indices of `sizes`, largest size first, ties in their own order.
pub open spec fn size_order(sizes: Seq<usize>) -> Seq<usize> {
    choose|order: Seq<usize>| is_size_order(sizes, order)
}

/// There is one such order.
pub proof fn lemma_size_order_unique(sizes: Seq<usize>, order: Seq<usize>)
    requires
        is_size_order(sizes, order),
    ensures
        size_order(sizes) == order,
{
    let other = size_order(sizes);
    assert(is_size_order(sizes, other));
    let s1 = choose|sorted: Seq<(i64, usize)>|
        is_stable_sort_desc(size_keyed(sizes), sorted) && order == sorted.map_values(|x: (i64, usize)| x.1);
    let s2 = choose|sorted: Seq<(i64, usize)>|
        is_stable_sort_desc(size_keyed(sizes), sorted) && other == sorted.map_values(|x: (i64, usize)| x.1);
    crate::sorting::lemma_stable_sort_unique(size_keyed(sizes), s1, s2);
}

/// The indices of the boxes, largest first; boxes of the same size keep their order.
pub fn order_by_size(sizes: &Vec<usize>) -> (order: Vec<usize>)
    requires
        forall|i: int| 0 <= i < sizes@.len() ==> #[trigger] sizes@[i] <= i64::MAX,
    ensures
        is_size_order(sizes@, order@),
        order@.len() == sizes@.len(),
        forall|i: int| 0 <= i < order@.len() ==> #[trigger] order@[i] < sizes@.len(),
        forall|i: int| 0 <= i < order@.len() ==> sizes@[#[trigger] order@[i] as int] as int == size_keyed(sizes@)[order@[i] as int].0,
{
    let mut keyed: Vec<(i64, usize)> = Vec::new();
    let mut i: usize = 0;
    while i < sizes.len()
        invariant
            0 <= i <= sizes@.len(),
            forall|j: int| 0 <= j < sizes@.len() ==> #[trigger] sizes@[j] <= i64::MAX,
            keyed@ == size_keyed(sizes@).take(i as int),
        decreases sizes@.len() - i,
    {
        keyed.push((sizes[i] as i64, i));
        assert(keyed@ =~= size_keyed(sizes@).take(i + 1));
        i = i + 1;
    }
    assert(keyed@ =~= size_keyed(sizes@));
    let sorted = sort_by_key_desc(keyed);
    let ghost s = sorted@;
    let mut order: Vec<usize> = Vec::new();
    let mut j: usize = 0;
    while j < sorted.len()
        invariant
            0 <= j <= s.len(),
            s == sorted@,
            is_stable_sort_desc(size_keyed(sizes@), s),
            order@ == s.map_values(|x: (i64, usize)| x.1).take(j as int),
        decreases s.len() - j,
    {
        order.push(sorted[j].1);
        assert(order@ =~= s.map_values(|x: (i64, usize)| x.1).take(j + 1));
        j = j + 1;
    }
    assert(order@ =~= s.map_values(|x: (i64, usize)| x.1));
    proof {
        let p = choose|p: Seq<int>| crate::sorting::is_stable_permutation(size_keyed(sizes@), s, p);
        assert forall|k: int| 0 <= k < order@.len() implies #[trigger] order@[k] < sizes@.len() by {
            assert(s[k] == size_keyed(sizes@)[p[k]]);
        }
    }
    order
}

/// The number of boxes in band `b` when `n` boxes are cut into bands of `per_band`.
pub open spec fn band_len(n: int, per_band: int, b: int) -> int {
    if (b + 1) * per_band <= n {
        per_band
    } else {
        n - b * per_band
    }
}

/// The number of bands `n` boxes make, `per_band` to a band.
pub open spec fn band_count(n: int, per_band: int) -> int {
    (n + per_band - 1) / per_band
}

/// The height of the tallest of the boxes at positions `from` to `from + len` of `heights`.
pub open spec fn tallest(heights: Seq<int>, from: int, len: int) -> int
    decreases len,
{
    if len <= 0 {
        0
    } else {
        let rest = tallest(heights, from, len - 1);
        if heights[from + len - 1] > rest {
            heights[from + len - 1]
        } else {
            rest
        }
    }
}

/// The top of band `b`: the heights of the tallest boxes of the bands above it, added up.
pub open spec fn band_top(heights: Seq<int>, per_band: int, b: int) -> int
    decreases b,
{
    if b <= 0 {
        0
    } else {
        band_top(heights, per_band, b - 1) + tallest(
            heights,
            (b - 1) * per_band,
            band_len(heights.len() as int, per_band, b - 1),
        )
    }
}

/// The heights of the first boxes of the first `b` bands, added up.
pub open spec fn first_heights(heights: Seq<int>, per_band: int, b: int) -> int
    decreases b,
{
    if b <= 0 {
        0
    } else {
        first_heights(heights, per_band, b - 1) + heights[(b - 1) * per_band]
    }
}

/// The tallest of some boxes is one of them or 0: no box is taller, and it is no taller than
/// a bound on all of them.
pub proof fn lemma_tallest_bounds(heights: Seq<int>, from: int, len: int, bound: int)
    requires
        0 <= from,
        0 <= len,
        from + len <= heights.len(),
        0 <= bound,
        forall|i: int| 0 <= i < heights.len() ==> 0 <= #[trigger] heights[i] <= bound,
    ensures
        0 <= tallest(heights, from, len) <= bound,
        forall|i: int| from <= i < from + len ==> #[trigger] heights[i] <= tallest(heights, from, len),
    decreases len,
{
    if len > 0 {
        lemma_tallest_bounds(heights, from, len - 1, bound);
    }
}

/// Band `b` exists exactly when it starts before the last box.
pub proof fn lemma_band_count(n: int, k: int, b: int)
    requires
        k > 0,
        b >= 0,
        n >= 0,
    ensures
        b * k < n <==> b < band_count(n, k),
        0 <= band_count(n, k) <= n,
{
    let q = band_count(n, k);
    vstd::arithmetic::div_mod::lemma_fundamental_div_mod(n + k - 1, k);
    let r = (n + k - 1) % k;
    assert(0 <= r < k) by {
        vstd::arithmetic::div_mod::lemma_mod_bound(n + k - 1, k);
    }
    assert(b * k < n <==> b < q) by (nonlinear_arith)
        requires
            n + k - 1 == k * q + r,
            0 <= r < k,
            k > 0,
            b >= 0;
    assert(0 <= q <= n) by (nonlinear_arith)
        requires
            n + k - 1 == k * q + r,
            0 <= r < k,
            k > 0,
            n >= 0;
}

/// The boxes of a band fit side by side in the width, and a band of fewer boxes has wider ones.
pub proof fn lemma_box_widths(w: int, size: int, most: int, c: int)
    requires
        0 <= w,
        1 <= size <= most,
        0 <= c < size,
    ensures
        (c + 1) * (w / size) <= w,
        0 <= c * (w / size),
        w / size >= w / most,
{
    vstd::arithmetic::div_mod::lemma_div_is_ordered_by_denominator(w, size, most);
    vstd::arithmetic::div_mod::lemma_fundamental_div_mod(w, size);
    vstd::arithmetic::div_mod::lemma_div_pos_is_pos(w, size);
    let q = w / size;
    assert((c + 1) * q <= size * q) by (nonlinear_arith)
        requires c + 1 <= size, 0 <= q;
    assert(0 <= c * q) by (nonlinear_arith)
        requires 0 <= c, 0 <= q;
    assert(size * q <= w) by {
        vstd::arithmetic::div_mod::lemma_mod_bound(w, size);
    }
}

/// The heights never grow along the sequence.
pub open spec fn nonincreasing(heights: Seq<int>) -> bool {
    forall|i: int, j: int| 0 <= i <= j < heights.len() ==> #[trigger] heights[i] >= #[trigger] heights[j]
}

/// With the heights never growing, a run of boxes is as tall as its first box.
pub proof fn lemma_tallest_is_first(heights: Seq<int>, from: int, len: int)
    requires
        nonincreasing(heights),
        0 <= from,
        1 <= len,
        from + len <= heights.len(),
        forall|i: int| 0 <= i < heights.len() ==> 0 <= #[trigger] heights[i],
    ensures
        tallest(heights, from, len) == heights[from],
    decreases len,
{
    assert(tallest(heights, from, 0) == 0);
    if len > 1 {
        lemma_tallest_is_first(heights, from, len - 1);
        assert(heights[from] >= heights[from + len - 1]);
    }
}

/// With the heights never growing, each band is as tall as its first box, so the first
/// boxes of the bands add up to where the bands end.
pub proof fn lemma_first_heights_reach_band_tops(heights: Seq<int>, per_band: int, b: int)
    requires
        nonincreasing(heights),
        per_band > 0,
        0 <= b <= band_count(heights.len() as int, per_band),
        forall|i: int| 0 <= i < heights.len() ==> 0 <= #[trigger] heights[i],
    ensures
        first_heights(heights, per_band, b) == band_top(heights, per_band, b),
    decreases b,
{
    if b > 0 {
        lemma_first_heights_reach_band_tops(heights, per_band, b - 1);
        let n = heights.len() as int;
        lemma_band_count(n, per_band, b - 1);
        assert(0 <= (b - 1) * per_band) by (nonlinear_arith)
            requires b >= 1, per_band > 0;
        assert(b * per_band == (b - 1) * per_band + per_band) by (nonlinear_arith);
        let len = band_len(n, per_band, b - 1);
        assert(1 <= len && (b - 1) * per_band + len <= n);
        lemma_tallest_is_first(heights, (b - 1) * per_band, len);
    }
}

/// The bands only ever go down: a band's top is no lower than a later band's.
pub proof fn lemma_band_top_monotone(heights: Seq<int>, per_band: int, a: int, b: int)
    requires
        per_band > 0,
        0 <= a <= b <= band_count(heights.len() as int, per_band),
        forall|i: int| 0 <= i < heights.len() ==> 0 <= #[trigger] heights[i],
    ensures
        band_top(heights, per_band, a) <= band_top(heights, per_band, b),
    decreases b - a,
{
    if a < b {
        lemma_band_top_monotone(heights, per_band, a, b - 1);
        let n = heights.len() as int;
        lemma_band_count(n, per_band, b - 1);
        assert(0 <= (b - 1) * per_band) by (nonlinear_arith)
            requires b >= 1, per_band > 0;
        assert(b * per_band == (b - 1) * per_band + per_band) by (nonlinear_arith);
        let len = band_len(n, per_band, b - 1);
        let bound = tallest(heights, (b - 1) * per_band, len);
        assert(0 <= tallest(heights, (b - 1) * per_band, len)) by {
            lemma_tallest_nonneg(heights, (b - 1) * per_band, len);
        }
    }
}

/// With the heights never growing, band `b` ends where its first box ends, and every box
/// from band `b` on, set at the top of band `b`, ends above the bottom of the image.
pub proof fn lemma_band_within_height(heights: Seq<int>, per_band: int, b: int)
    requires
        nonincreasing(heights),
        per_band > 0,
        0 <= b < band_count(heights.len() as int, per_band),
        forall|i: int| 0 <= i < heights.len() ==> 0 <= #[trigger] heights[i],
    ensures
        0 <= b * per_band < heights.len(),
        band_top(heights, per_band, b) == first_heights(heights, per_band, b),
        band_top(heights, per_band, b + 1) == band_top(heights, per_band, b) + heights[b * per_band],
        band_top(heights, per_band, b + 1) <= first_heights(
            heights,
            per_band,
            band_count(heights.len() as int, per_band),
        ),
        forall|p: int|
            b * per_band <= p < heights.len() ==> band_top(heights, per_band, b) + #[trigger] heights[p]
                <= first_heights(heights, per_band, band_count(heights.len() as int, per_band)),
{
    let n = heights.len() as int;
    let bc = band_count(n, per_band);
    lemma_band_count(n, per_band, b);
    assert(0 <= b * per_band) by (nonlinear_arith)
        requires b >= 0, per_band > 0;
    assert((b + 1) * per_band == b * per_band + per_band) by (nonlinear_arith);
    let len = band_len(n, per_band, b);
    assert(1 <= len && b * per_band + len <= n);
    lemma_tallest_is_first(heights, b * per_band, len);
    lemma_first_heights_reach_band_tops(heights, per_band, b);
    lemma_first_heights_reach_band_tops(heights, per_band, bc);
    lemma_band_top_monotone(heights, per_band, b + 1, bc);
}

/// The first boxes of more bands add up to no less.
pub proof fn lemma_first_heights_monotone(heights: Seq<int>, per_band: int, a: int, b: int)
    requires
        per_band > 0,
        0 <= a <= b <= band_count(heights.len() as int, per_band),
        forall|i: int| 0 <= i < heights.len() ==> 0 <= #[trigger] heights[i],
    ensures
        first_heights(heights, per_band, a) <= first_heights(heights, per_band, b),
    decreases b - a,
{
    if a < b {
        lemma_first_heights_monotone(heights, per_band, a, b - 1);
        lemma_band_count(heights.len() as int, per_band, b - 1);
        assert(0 <= (b - 1) * per_band) by (nonlinear_arith)
            requires b >= 1, per_band > 0;
    }
}

proof fn lemma_tallest_nonneg(heights: Seq<int>, from: int, len: int)
    requires
        0 <= from,
        from + len <= heights.len(),
        forall|i: int| 0 <= i < heights.len() ==> 0 <= #[trigger] heights[i],
    ensures
        0 <= tallest(heights, from, len),
    decreases len,
{
    if len > 0 {
        lemma_tallest_nonneg(heights, from, len - 1);
    }
}

/// Ordering the sizes from the largest puts the sizes of the ordered boxes from the largest down.
pub proof fn lemma_size_order_nonincreasing(sizes: Seq<usize>, order: Seq<usize>)
    requires
        is_size_order(sizes, order),
        forall|i: int| 0 <= i < sizes.len() ==> #[trigger] sizes[i] <= i64::MAX,
        sizes.len() <= usize::MAX,
    ensures
        order.len() == sizes.len(),
        forall|p: int| 0 <= p < order.len() ==> #[trigger] order[p] < sizes.len(),
        forall|p: int, q: int|
            0 <= p <= q < order.len() ==> sizes[#[trigger] order[p] as int] >= sizes[#[trigger] order[q] as int],
{
    let sorted = choose|sorted: Seq<(i64, usize)>|
        is_stable_sort_desc(size_keyed(sizes), sorted) && order == sorted.map_values(|x: (i64, usize)| x.1);
    let keyed = size_keyed(sizes);
    let perm = choose|perm: Seq<int>| crate::sorting::is_stable_permutation(keyed, sorted, perm);
    assert forall|p: int| 0 <= p < order.len() implies #[trigger] order[p] < sizes.len() && sorted[p].0 == sizes[order[p] as int] by {
        assert(sorted[p] == keyed[perm[p]]);
        assert(order[p] == sorted[p].1);
        assert(0 <= perm[p] < sizes.len());
        assert(keyed[perm[p]] == (sizes[perm[p]] as i64, perm[p] as usize));
    }
    assert forall|p: int, q: int| 0 <= p <= q < order.len() implies sizes[#[trigger] order[p] as int] >= sizes[#[trigger] order[q] as int] by {
        assert(sorted[p].0 == sizes[order[p] as int]);
        assert(sorted[q].0 == sizes[order[q] as int]);
        if p < q {
            assert(sorted[p].0 >= sorted[q].0);
        }
    }
}

} // verus!
