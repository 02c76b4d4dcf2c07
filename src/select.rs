use vstd::prelude::*;

verus! {

/// Sum of a list of weights.
pub open spec fn weight_sum(w: Seq<u32>) -> nat
    decreases w.len(),
{
    if w.len() == 0 {
        0
    } else {
        weight_sum(w.drop_last()) + w.last() as nat
    }
}

proof fn lemma_weight_sum_take(w: Seq<u32>, i: int)
    requires
        0 <= i < w.len(),
    ensures
        weight_sum(w.take(i + 1)) == weight_sum(w.take(i)) + w[i] as nat,
{
    assert(w.take(i + 1).drop_last() =~= w.take(i));
}

proof fn lemma_weight_sum_prefix_le(w: Seq<u32>, i: int)
    requires
        0 <= i <= w.len(),
    ensures
        weight_sum(w.take(i)) <= weight_sum(w),
    decreases w.len() - i,
{
    if i < w.len() {
        lemma_weight_sum_take(w, i);
        lemma_weight_sum_prefix_le(w, i + 1);
    } else {
        assert(w.take(i) =~= w);
    }
}

/// Picks the alternative whose share of the total weight contains `draw` modulo the
/// total: alternative `r` is taken for `weights[r]` of every `total` consecutive draws.
pub fn weighted_select(weights: &Vec<u32>, draw: u64) -> (r: usize)
    requires
        0 < weight_sum(weights@) <= u64::MAX,
    ensures
        r < weights@.len(),
        weight_sum(weights@.take(r as int)) <= (draw as nat) % weight_sum(weights@),
        (draw as nat) % weight_sum(weights@) < weight_sum(weights@.take(r as int + 1)),
{
    let mut total: u64 = 0;
    let mut i: usize = 0;
    while i < weights.len()
        invariant
            i <= weights@.len(),
            total as nat == weight_sum(weights@.take(i as int)),
            weight_sum(weights@) <= u64::MAX,
        decreases weights@.len() - i,
    {
        proof {
            lemma_weight_sum_take(weights@, i as int);
            lemma_weight_sum_prefix_le(weights@, i as int + 1);
        }
        total = total + weights[i] as u64;
        i += 1;
    }
    assert(weights@.take(weights@.len() as int) =~= weights@);
    let point = draw % total;
    assert(point as nat == (draw as nat) % weight_sum(weights@));
    let mut acc: u64 = 0;
    let mut k: usize = 0;
    while k < weights.len()
        invariant
            k <= weights@.len(),
            total as nat == weight_sum(weights@),
            point < total,
            point as nat == (draw as nat) % weight_sum(weights@),
            acc as nat == weight_sum(weights@.take(k as int)),
            acc <= point,
        decreases weights@.len() - k,
    {
        proof {
            lemma_weight_sum_take(weights@, k as int);
            lemma_weight_sum_prefix_le(weights@, k as int + 1);
        }
        let next = acc + weights[k] as u64;
        if point < next {
            return k;
        }
        acc = next;
        k += 1;
    }
    assert(weights@.take(weights@.len() as int) =~= weights@);
    k
}

/// A draw between two alternatives weighted `first` and `second`; true when the first
/// is taken, which happens exactly when `draw` modulo the total falls below `first`.
pub fn choose_first(first: u32, second: u32, draw: u64) -> (r: bool)
    requires
        first as int + second as int > 0,
    ensures
        r == ((draw as int) % (first as int + second as int) < first as int),
{
    let weights: Vec<u32> = vec![first, second];
    proof {
        let w = weights@;
        assert(w.take(0).len() == 0);
        assert(w.take(1).drop_last() =~= w.take(0));
        assert(w.take(2).drop_last() =~= w.take(1));
        assert(w.take(2) =~= w);
        assert(weight_sum(w.take(0)) == 0);
        assert(w.take(1).last() == first);
        assert(weight_sum(w.take(1)) == first as nat);
        assert(w.take(2).last() == second);
        assert(weight_sum(w) == first as nat + second as nat);
    }
    let k = weighted_select(&weights, draw);
    k == 0
}

/// A uniform pick of a position below `len`.
pub fn pick_index(len: usize, draw: u64) -> (r: usize)
    requires
        len > 0,
    ensures
        r as int == (draw as int) % (len as int),
{
    (draw % (len as u64)) as usize
}

} // verus!
