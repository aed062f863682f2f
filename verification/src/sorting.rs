//! A stable sort of keyed items, largest key first.
use vstd::prelude::*;

verus! {

/// The keys never increase along `s`.
pub open spec fn sorted_by_key_desc<T>(s: Seq<(i64, T)>) -> bool {
    forall|i: int, j: int| 0 <= i < j < s.len() ==> #[trigger] s[i].0 >= #[trigger] s[j].0
}

/// `p` maps each position of `output` to the position in `input` it was taken from: a
/// bijection under which items with equal keys keep their relative order.
pub open spec fn is_stable_permutation<T>(input: Seq<(i64, T)>, output: Seq<(i64, T)>, p: Seq<int>) -> bool {
    &&& p.len() == input.len()
    &&& output.len() == input.len()
    &&& forall|k: int| 0 <= k < p.len() ==> 0 <= #[trigger] p[k] < input.len()
    &&& forall|a: int, b: int| 0 <= a < p.len() && 0 <= b < p.len() && a != b ==> #[trigger] p[a] != #[trigger] p[b]
    &&& forall|k: int| 0 <= k < p.len() ==> #[trigger] output[k] == input[p[k]]
    &&& forall|a: int, b: int|
        0 <= a < b < p.len() && #[trigger] output[a].0 == #[trigger] output[b].0 ==> p[a] < p[b]
}

/// `output` is `input` sorted by key, largest first, keeping the order of items with equal keys.
pub open spec fn is_stable_sort_desc<T>(input: Seq<(i64, T)>, output: Seq<(i64, T)>) -> bool {
    &&& sorted_by_key_desc(output)
    &&& exists|p: Seq<int>| is_stable_permutation(input, output, p)
}

/// Sorts the items by key, largest first; items with equal keys keep their order.
pub fn sort_by_key_desc<T>(items: Vec<(i64, T)>) -> (sorted: Vec<(i64, T)>)
    ensures
        is_stable_sort_desc(items@, sorted@),
{
    let ghost orig = items@;
    let n = items.len();
    let mut rest = items;
    let mut out: Vec<(i64, T)> = Vec::new();
    let ghost mut p: Seq<int> = Seq::empty();
    while rest.len() > 0
        invariant
            n == orig.len(),
            rest@ == orig.subrange(0, rest.len() as int),
            out.len() + rest.len() == n,
            p.len() == out.len(),
            sorted_by_key_desc(out@),
            forall|k: int| 0 <= k < p.len() ==> rest.len() <= #[trigger] p[k] < n,
            forall|a: int, b: int| 0 <= a < p.len() && 0 <= b < p.len() && a != b ==> #[trigger] p[a] != #[trigger] p[b],
            forall|k: int| 0 <= k < p.len() ==> #[trigger] out@[k] == orig[p[k]],
            forall|a: int, b: int|
                0 <= a < b < p.len() && #[trigger] out@[a].0 == #[trigger] out@[b].0 ==> p[a] < p[b],
        decreases rest.len(),
    {
        let ghost m = rest.len() - 1;
        let x = rest.pop().unwrap();
        assert(x == orig[m]);
        assert(rest@ =~= orig.subrange(0, rest.len() as int));
        let mut pos: usize = 0;
        while pos < out.len() && out[pos].0 > x.0
            invariant
                0 <= pos <= out.len(),
                forall|k: int| 0 <= k < pos ==> #[trigger] out@[k].0 > x.0,
            decreases out.len() - pos,
        {
            pos = pos + 1;
        }
        let ghost old_out = out@;
        let ghost old_p = p;
        out.insert(pos, x);
        proof {
            p = old_p.insert(pos as int, m);
            assert(forall|k: int| pos <= k < old_out.len() ==> #[trigger] old_out[k].0 <= x.0) by {
                if pos < old_out.len() {
                    assert(old_out[pos as int].0 <= x.0);
                    assert forall|k: int| pos <= k < old_out.len() implies #[trigger] old_out[k].0 <= x.0 by {
                        if k > pos {
                            assert(old_out[pos as int].0 >= old_out[k].0);
                        }
                    }
                }
            }
            assert(out@ =~= old_out.insert(pos as int, x));
            assert forall|k: int| 0 <= k < p.len() implies rest.len() <= #[trigger] p[k] < n by {
                if k < pos {
                    assert(p[k] == old_p[k]);
                } else if k > pos {
                    assert(p[k] == old_p[k - 1]);
                }
            }
            assert forall|a: int, b: int| 0 <= a < p.len() && 0 <= b < p.len() && a != b implies
                #[trigger] p[a] != #[trigger] p[b] by {
                if a != pos && b != pos {
                    let a0 = if a < pos { a } else { a - 1 };
                    let b0 = if b < pos { b } else { b - 1 };
                    assert(p[a] == old_p[a0]);
                    assert(p[b] == old_p[b0]);
                } else if a == pos {
                    let b0 = if b < pos { b } else { b - 1 };
                    assert(p[b] == old_p[b0]);
                } else {
                    let a0 = if a < pos { a } else { a - 1 };
                    assert(p[a] == old_p[a0]);
                }
            }
            assert forall|k: int| 0 <= k < p.len() implies #[trigger] out@[k] == orig[p[k]] by {
                if k < pos {
                    assert(out@[k] == old_out[k]);
                } else if k > pos {
                    assert(out@[k] == old_out[k - 1]);
                }
            }
            assert forall|a: int, b: int| 0 <= a < b < out@.len() implies
                #[trigger] out@[a].0 >= #[trigger] out@[b].0 by {
                if b < pos {
                    assert(out@[a] == old_out[a]);
                    assert(out@[b] == old_out[b]);
                } else if b == pos {
                    assert(out@[a] == old_out[a]);
                } else if a < pos {
                    assert(out@[a] == old_out[a]);
                    assert(out@[b] == old_out[b - 1]);
                } else if a == pos {
                    assert(out@[b] == old_out[b - 1]);
                } else {
                    assert(out@[a] == old_out[a - 1]);
                    assert(out@[b] == old_out[b - 1]);
                }
            }
            assert forall|a: int, b: int|
                0 <= a < b < p.len() && #[trigger] out@[a].0 == #[trigger] out@[b].0 implies p[a] < p[b] by {
                if b < pos {
                    assert(out@[a] == old_out[a]);
                    assert(out@[b] == old_out[b]);
                    assert(p[a] == old_p[a]);
                    assert(p[b] == old_p[b]);
                } else if b == pos {
                    assert(out@[a] == old_out[a]);
                } else if a < pos {
                    assert(out@[a] == old_out[a]);
                    assert(out@[b] == old_out[b - 1]);
                    assert(p[a] == old_p[a]);
                    assert(p[b] == old_p[b - 1]);
                } else if a == pos {
                    assert(p[b] == old_p[b - 1]);
                } else {
                    assert(out@[a] == old_out[a - 1]);
                    assert(out@[b] == old_out[b - 1]);
                    assert(p[a] == old_p[a - 1]);
                    assert(p[b] == old_p[b - 1]);
                }
            }
        }
    }
    assert(is_stable_permutation(orig, out@, p));
    out
}

/// A sequence of `n` distinct positions below `n` takes every position below `n`.
proof fn lemma_positions_onto(p: Seq<int>, n: int, y: int)
    requires
        p.len() == n,
        forall|k: int| 0 <= k < n ==> 0 <= #[trigger] p[k] < n,
        forall|a: int, b: int| 0 <= a < n && 0 <= b < n && a != b ==> #[trigger] p[a] != #[trigger] p[b],
        0 <= y < n,
    ensures
        exists|k: int| 0 <= k < n && p[k] == y,
{
    assert(p.no_duplicates());
    p.unique_seq_to_set();
    vstd::set_lib::lemma_int_range(0, n);
    let range = vstd::set_lib::set_int_range(0, n);
    assert(p.to_set().subset_of(range)) by {
        assert forall|v: int| p.to_set().contains(v) implies range.contains(v) by {
            let k = choose|k: int| 0 <= k < p.len() && p[k] == v;
        }
    }
    vstd::set_lib::lemma_subset_equality(p.to_set(), range);
    assert(range.contains(y));
    assert(p.to_set().contains(y));
}

/// Input position `i` goes before input position `j` in a stable sort, largest key first.
pub open spec fn goes_before<T>(input: Seq<(i64, T)>, i: int, j: int) -> bool {
    input[i].0 > input[j].0 || (input[i].0 == input[j].0 && i < j)
}

proof fn lemma_stable_order<T>(input: Seq<(i64, T)>, output: Seq<(i64, T)>, p: Seq<int>, a: int, b: int)
    requires
        sorted_by_key_desc(output),
        is_stable_permutation(input, output, p),
        0 <= a < b < p.len(),
    ensures
        goes_before(input, p[a], p[b]),
{
    assert(output[a] == input[p[a]]);
    assert(output[b] == input[p[b]]);
    assert(output[a].0 >= output[b].0);
}

/// A stable sort, largest key first, has one outcome.
pub proof fn lemma_stable_sort_unique<T>(input: Seq<(i64, T)>, o1: Seq<(i64, T)>, o2: Seq<(i64, T)>)
    requires
        is_stable_sort_desc(input, o1),
        is_stable_sort_desc(input, o2),
    ensures
        o1 == o2,
{
    let p1 = choose|p: Seq<int>| is_stable_permutation(input, o1, p);
    let p2 = choose|p: Seq<int>| is_stable_permutation(input, o2, p);
    let n = input.len() as int;
    assert forall|a: int| 0 <= a < n implies #[trigger] p1[a] == p2[a] by {
        lemma_same_position(input, o1, o2, p1, p2, a);
    }
    assert(o1 =~= o2) by {
        assert forall|a: int| 0 <= a < n implies o1[a] == o2[a] by {
            assert(p1[a] == p2[a]);
        }
    }
}

proof fn lemma_same_position<T>(
    input: Seq<(i64, T)>,
    o1: Seq<(i64, T)>,
    o2: Seq<(i64, T)>,
    p1: Seq<int>,
    p2: Seq<int>,
    a: int,
)
    requires
        sorted_by_key_desc(o1),
        sorted_by_key_desc(o2),
        is_stable_permutation(input, o1, p1),
        is_stable_permutation(input, o2, p2),
        0 <= a < input.len(),
    ensures
        p1[a] == p2[a],
    decreases a,
{
    let n = input.len() as int;
    if a > 0 {
        lemma_same_position(input, o1, o2, p1, p2, a - 1);
    }
    assert forall|c: int| 0 <= c < a implies p1[c] == p2[c] by {
        if c < a - 1 {
            lemma_same_position(input, o1, o2, p1, p2, c);
        }
    }
    let x = p1[a];
    let y = p2[a];
    if x != y {
        lemma_positions_onto(p1, n, y);
        let d = choose|k: int| 0 <= k < n && p1[k] == y;
        lemma_positions_onto(p2, n, x);
        let e = choose|k: int| 0 <= k < n && p2[k] == x;
        if d < a {
            assert(p2[d] == p1[d]);
        }
        if e < a {
            assert(p1[e] == p2[e]);
        }
        assert(d > a);
        assert(e > a);
        lemma_stable_order(input, o1, p1, a, d);
        lemma_stable_order(input, o2, p2, a, e);
    }
}

} // verus!
