//! Finding, for each query, the pair of consecutive samples that encloses it.

use vstd::prelude::*;

use crate::error::InterpError;
use crate::float_order::{bits_le, f32_le};

verus! {

/// Samples `x[k]` and `x[k + 1]` enclose `q`: `x[k] <= q <= x[k + 1]`.
pub open spec fn brackets(x: Seq<u32>, k: int, q: u32) -> bool {
    0 <= k && k + 1 < x.len() && f32_le(x[k], q) && f32_le(q, x[k + 1])
}

/// `k` is the first index whose pair of samples encloses `q`.
pub open spec fn is_first_bracket(x: Seq<u32>, k: int, q: u32) -> bool {
    brackets(x, k, q) && forall|j: int| 0 <= j < k ==> !brackets(x, j, q)
}

/// Some pair of consecutive samples encloses `q`.
pub open spec fn bracketable(x: Seq<u32>, q: u32) -> bool {
    exists|k: int| brackets(x, k, q)
}

/// The first index whose pair of samples encloses `q`, if any does.
pub open spec fn first_bracket(x: Seq<u32>, q: u32) -> Option<int> {
    if bracketable(x, q) {
        Some(choose|k: int| is_first_bracket(x, k, q))
    } else {
        None
    }
}

/// `q` lies in the closed interval from the first sample to the last.
pub open spec fn in_domain(x: Seq<u32>, q: u32) -> bool {
    x.len() > 0 && f32_le(x[0], q) && f32_le(q, x.last())
}

/// Every query is enclosed by some pair of samples.
pub open spec fn all_bracketable(x: Seq<u32>, xi: Seq<u32>) -> bool {
    forall|i: int| 0 <= i < xi.len() ==> bracketable(x, xi[i])
}

/// Every query lies in the sample domain.
pub open spec fn all_in_domain(x: Seq<u32>, xi: Seq<u32>) -> bool {
    forall|i: int| 0 <= i < xi.len() ==> in_domain(x, xi[i])
}

/// The interval search without the domain check: for each query in order,
/// the first index whose pair of samples encloses it.
pub open spec fn locate_all(x: Seq<u32>, xi: Seq<u32>) -> Result<Seq<usize>, InterpError> {
    if all_bracketable(x, xi) {
        Ok(Seq::new(xi.len(), |i: int| first_bracket(x, xi[i])->Some_0 as usize))
    } else {
        Err(InterpError::Unbracketed)
    }
}

/// The checked interval search: an empty sample set and a query outside the
/// sample domain are reported before any search.
pub open spec fn locate_all_checked(x: Seq<u32>, xi: Seq<u32>) -> Result<Seq<usize>, InterpError> {
    if x.len() == 0 {
        Err(InterpError::NoneArray)
    } else if !all_in_domain(x, xi) {
        Err(InterpError::Range)
    } else {
        locate_all(x, xi)
    }
}

/// The view of an interval search's result.
pub open spec fn result_view(r: Result<Vec<usize>, InterpError>) -> Result<Seq<usize>, InterpError> {
    match r {
        Ok(v) => Ok(v@),
        Err(e) => Err(e),
    }
}

/// The first bracket is unique: whatever satisfies it is what `first_bracket` picks.
pub proof fn lemma_first_bracket_unique(x: Seq<u32>, q: u32, k: int)
    requires
        is_first_bracket(x, k, q),
    ensures
        first_bracket(x, q) == Some(k),
{
    assert(bracketable(x, q));
    let f = choose|f: int| is_first_bracket(x, f, q);
    assert(is_first_bracket(x, f, q));
    if f < k {
        assert(!brackets(x, f, q));
    } else if k < f {
        assert(!brackets(x, k, q));
    }
}

/// Where a pair encloses `q`, a first one does, and `first_bracket` is it.
pub proof fn lemma_first_bracket_exists(x: Seq<u32>, q: u32, k: int)
    requires
        brackets(x, k, q),
    ensures
        first_bracket(x, q) is Some,
        is_first_bracket(x, first_bracket(x, q)->Some_0, q),
    decreases k,
{
    if exists|j: int| 0 <= j < k && brackets(x, j, q) {
        let j = choose|j: int| 0 <= j < k && brackets(x, j, q);
        lemma_first_bracket_exists(x, q, j);
    } else {
        assert(is_first_bracket(x, k, q));
        lemma_first_bracket_unique(x, q, k);
    }
}

/// The first index `k` with `x[k] <= q <= x[k + 1]`, or `None` where no
/// pair of consecutive samples encloses `q`.
pub fn locate(x: &Vec<u32>, q: u32) -> (r: Option<usize>)
    ensures
        r is Some <==> bracketable(x@, q),
        r matches Some(k) ==> is_first_bracket(x@, k as int, q),
        r matches Some(k) ==> first_bracket(x@, q) == Some(k as int),
        r is None ==> first_bracket(x@, q) is None,
{
    let n = x.len();
    if n < 2 {
        return None;
    }
    let mut k: usize = 0;
    while k < n - 1
        invariant
            n == x@.len(),
            n >= 2,
            k <= n - 1,
            forall|j: int| 0 <= j < k ==> !brackets(x@, j, q),
        decreases n - k,
    {
        if bits_le(x[k], q) && bits_le(q, x[k + 1]) {
            proof {
                lemma_first_bracket_unique(x@, q, k as int);
            }
            return Some(k);
        }
        k = k + 1;
    }
    None
}

/// For each query in order, the first index `k` with
/// `x[k] <= xi[i] <= x[k + 1]`. The domain is not checked first: a query
/// that no pair encloses gives `Unbracketed`, and no index is returned.
pub fn lerp_intervals_unchecked(x: &Vec<u32>, xi: &Vec<u32>) -> (r: Result<Vec<usize>, InterpError>)
    ensures
        result_view(r) == locate_all(x@, xi@),
        r is Ok <==> all_bracketable(x@, xi@),
        r is Err ==> r == Err::<Vec<usize>, InterpError>(InterpError::Unbracketed),
        r matches Ok(v) ==> v@.len() == xi@.len(),
        r matches Ok(v) ==> forall|i: int|
            0 <= i < xi@.len() ==> is_first_bracket(x@, #[trigger] v@[i] as int, xi@[i]),
{
    let mut out: Vec<usize> = Vec::new();
    let mut i: usize = 0;
    while i < xi.len()
        invariant
            i <= xi@.len(),
            out@.len() == i,
            forall|j: int|
                0 <= j < i ==> is_first_bracket(x@, #[trigger] out@[j] as int, xi@[j])
                    && first_bracket(x@, xi@[j]) == Some(out@[j] as int),
        decreases xi@.len() - i,
    {
        match locate(x, xi[i]) {
            Some(k) => {
                out.push(k);
            },
            None => {
                assert(!bracketable(x@, xi@[i as int]));
                assert(!all_bracketable(x@, xi@));
                return Err(InterpError::Unbracketed);
            },
        }
        i = i + 1;
    }
    proof {
        assert(all_bracketable(x@, xi@)) by {
            assert forall|j: int| 0 <= j < xi@.len() implies bracketable(x@, xi@[j]) by {
                assert(brackets(x@, out@[j] as int, xi@[j]));
            }
        }
        let s = Seq::new(xi@.len(), |j: int| first_bracket(x@, xi@[j])->Some_0 as usize);
        assert(out@ =~= s);
    }
    Ok(out)
}

/// Every query lies in the closed interval from the first sample to the
/// last: `NoneArray` for an empty sample set, `Range` for a query outside
/// (a NaN query is outside).
pub fn check_domain(x: &Vec<u32>, xi: &Vec<u32>) -> (r: Result<(), InterpError>)
    ensures
        x@.len() == 0 ==> r == Err::<(), InterpError>(InterpError::NoneArray),
        x@.len() > 0 && !all_in_domain(x@, xi@) ==> r == Err::<(), InterpError>(InterpError::Range),
        x@.len() > 0 && all_in_domain(x@, xi@) ==> r is Ok,
{
    if x.len() == 0 {
        return Err(InterpError::NoneArray);
    }
    let first = x[0];
    let last = x[x.len() - 1];
    let mut i: usize = 0;
    while i < xi.len()
        invariant
            x@.len() > 0,
            first == x@[0],
            last == x@.last(),
            i <= xi@.len(),
            forall|j: int| 0 <= j < i ==> in_domain(x@, #[trigger] xi@[j]),
        decreases xi@.len() - i,
    {
        let q = xi[i];
        if !(bits_le(first, q) && bits_le(q, last)) {
            assert(!in_domain(x@, xi@[i as int]));
            return Err(InterpError::Range);
        }
        i = i + 1;
    }
    Ok(())
}

/// The checked interval search: the domain is checked first, and a single
/// query outside it fails the whole call. On success the result holds, for
/// each query in order, the first index `k` with `x[k] <= xi[i] <= x[k + 1]`.
pub fn lerp_intervals(x: &Vec<u32>, xi: &Vec<u32>) -> (r: Result<Vec<usize>, InterpError>)
    ensures
        result_view(r) == locate_all_checked(x@, xi@),
        x@.len() == 0 ==> r == Err::<Vec<usize>, InterpError>(InterpError::NoneArray),
        x@.len() > 0 && !all_in_domain(x@, xi@) ==> r == Err::<Vec<usize>, InterpError>(
            InterpError::Range,
        ),
        x@.len() > 0 && all_in_domain(x@, xi@) && !all_bracketable(x@, xi@) ==> r == Err::<
            Vec<usize>,
            InterpError,
        >(InterpError::Unbracketed),
        r is Ok <==> x@.len() > 0 && all_in_domain(x@, xi@) && all_bracketable(x@, xi@),
        r matches Ok(v) ==> v@.len() == xi@.len(),
        r matches Ok(v) ==> forall|i: int|
            0 <= i < xi@.len() ==> is_first_bracket(x@, #[trigger] v@[i] as int, xi@[i]),
{
    match check_domain(x, xi) {
        Err(e) => Err(e),
        Ok(()) => lerp_intervals_unchecked(x, xi),
    }
}

} // verus!
