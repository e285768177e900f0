//! Properties of the interval search over whole calls.

use vstd::prelude::*;

use crate::bracket::{
    all_bracketable, all_in_domain, bracketable, brackets, first_bracket, in_domain, lemma_first_bracket_exists,
    lemma_first_bracket_unique, locate_all, locate_all_checked,
};
use crate::error::InterpError;
use crate::float_order::{f32_le, is_nan_bits, key_of};

verus! {

/// The samples are in ascending order, and none is a NaN.
pub open spec fn ascending(x: Seq<u32>) -> bool {
    forall|i: int, j: int| 0 <= i <= j < x.len() ==> f32_le(#[trigger] x[i], #[trigger] x[j])
}

/// The samples are in strictly ascending order, and none is a NaN.
pub open spec fn strictly_ascending(x: Seq<u32>) -> bool {
    ascending(x) && forall|i: int, j: int|
        0 <= i < j < x.len() ==> key_of(#[trigger] x[i]) < key_of(#[trigger] x[j])
}

/// Where no pair encloses an in-domain `q`, every sample up to `k` lies at or below `q`.
proof fn lemma_unbracketed_below(x: Seq<u32>, q: u32, k: int)
    requires
        ascending(x),
        in_domain(x, q),
        !bracketable(x, q),
        0 <= k < x.len(),
    ensures
        key_of(x[k]) <= key_of(q),
    decreases k,
{
    assert(f32_le(x[k], x[k]));
    if k > 0 {
        lemma_unbracketed_below(x, q, k - 1);
        assert(f32_le(x[k - 1], x[k - 1]));
        assert(!brackets(x, k - 1, q));
        assert(!f32_le(q, x[k]));
    }
}

/// On ascending samples, every query in the domain is enclosed by some pair.
pub proof fn lemma_in_domain_bracketable(x: Seq<u32>, q: u32)
    requires
        x.len() >= 2,
        ascending(x),
        in_domain(x, q),
    ensures
        bracketable(x, q),
{
    if !bracketable(x, q) {
        let n = x.len() as int;
        lemma_unbracketed_below(x, q, n - 2);
        assert(f32_le(x[n - 2], x[n - 2]));
        assert(!brackets(x, n - 2, q));
        assert(f32_le(q, x.last()));
    }
}

/// On ascending samples, with at least two of them, the checked search
/// succeeds on any queries that all lie in the sample domain. It returns one
/// index per query, in query order, and the interval at each index encloses
/// its query: `x[k] <= xi[i] <= x[k + 1]`.
pub proof fn lemma_in_domain_queries_succeed(x: Seq<u32>, xi: Seq<u32>)
    requires
        2 <= x.len() <= usize::MAX,
        ascending(x),
        all_in_domain(x, xi),
    ensures
        locate_all_checked(x, xi) is Ok,
        locate_all_checked(x, xi)->Ok_0.len() == xi.len(),
        forall|i: int|
            0 <= i < xi.len() ==> brackets(
                x,
                #[trigger] locate_all_checked(x, xi)->Ok_0[i] as int,
                xi[i],
            ),
{
    assert forall|i: int| 0 <= i < xi.len() implies bracketable(x, #[trigger] xi[i]) by {
        lemma_in_domain_bracketable(x, xi[i]);
    }
    let v = locate_all_checked(x, xi)->Ok_0;
    assert forall|i: int| 0 <= i < xi.len() implies brackets(x, #[trigger] v[i] as int, xi[i]) by {
        let k = choose|k: int| brackets(x, k, xi[i]);
        lemma_first_bracket_exists(x, xi[i], k);
        assert(v[i] == first_bracket(x, xi[i])->Some_0 as usize);
    }
}

/// A query equal to a sample of strictly ascending samples is an end of the
/// interval found for it: for sample `k >= 1` the interval is
/// `[x[k - 1], x[k]]`, for sample `0` it is `[x[0], x[1]]`. The linear
/// formula on that interval is evaluated at one of its ends.
pub proof fn lemma_sample_query_at_interval_end(x: Seq<u32>, k: int, q: u32)
    requires
        x.len() >= 2,
        strictly_ascending(x),
        0 <= k < x.len(),
        !is_nan_bits(q),
        key_of(q) == key_of(x[k]),
    ensures
        k >= 1 ==> first_bracket(x, q) == Some(k - 1),
        k == 0 ==> first_bracket(x, q) == Some(0int),
{
    if k >= 1 {
        assert(f32_le(x[k - 1], x[k]));
        assert(f32_le(x[k], x[k]));
        assert forall|j: int| 0 <= j < k - 1 implies !brackets(x, j, q) by {
            assert(key_of(x[j + 1]) < key_of(x[k]));
        }
        lemma_first_bracket_unique(x, q, k - 1);
    } else {
        assert(f32_le(x[0], x[1]));
        assert(f32_le(x[0], x[0]));
        lemma_first_bracket_unique(x, q, 0);
    }
}

/// A query outside the sample domain fails the checked search with `Range`,
/// with no indices returned.
pub proof fn lemma_out_of_domain_fails(x: Seq<u32>, xi: Seq<u32>, i: int)
    requires
        x.len() > 0,
        0 <= i < xi.len(),
        !in_domain(x, xi[i]),
    ensures
        locate_all_checked(x, xi) == Err::<Seq<usize>, InterpError>(InterpError::Range),
{
}

/// An empty sample set fails the checked search with `NoneArray`, whatever the queries.
pub proof fn lemma_empty_samples_fail(x: Seq<u32>, xi: Seq<u32>)
    requires
        x.len() == 0,
    ensures
        locate_all_checked(x, xi) == Err::<Seq<usize>, InterpError>(InterpError::NoneArray),
{
}

/// On a non-empty sample set and queries that all lie in its domain, the
/// checked and the unchecked search give the same result.
pub proof fn lemma_checked_agrees_with_unchecked(x: Seq<u32>, xi: Seq<u32>)
    requires
        x.len() > 0,
        all_in_domain(x, xi),
    ensures
        locate_all_checked(x, xi) == locate_all(x, xi),
{
}

/// A successful search returns one index per query, and the index at
/// position `i` is the one found for query `i` alone.
pub proof fn lemma_result_follows_query_order(x: Seq<u32>, xi: Seq<u32>)
    requires
        x.len() <= usize::MAX,
        all_bracketable(x, xi),
    ensures
        locate_all(x, xi) is Ok,
        locate_all(x, xi)->Ok_0.len() == xi.len(),
        forall|i: int|
            0 <= i < xi.len() ==> Some(#[trigger] locate_all(x, xi)->Ok_0[i] as int) == first_bracket(
                x,
                xi[i],
            ),
{
    assert forall|i: int| 0 <= i < xi.len() implies Some(
        #[trigger] locate_all(x, xi)->Ok_0[i] as int,
    ) == first_bracket(x, xi[i]) by {
        let k = choose|k: int| brackets(x, k, xi[i]);
        lemma_first_bracket_exists(x, xi[i], k);
        assert(locate_all(x, xi)->Ok_0[i] == first_bracket(x, xi[i])->Some_0 as usize);
    }
}

} // verus!
