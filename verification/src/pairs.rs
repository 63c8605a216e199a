//! Which pairs of bodies interact in one step.
//!
//! Every test particle feels every massive particle, and every two massive
//! particles feel each other. A pair is listed once, and no body is paired
//! with itself.

use crate::limits::{listable, LIST_LIMIT};
use itertools::Itertools;
use vstd::prelude::*;

verus! {

/// The pairs `(test, massive)` with `test < tests` and `massive < massives`,
/// test by test.
pub open spec fn ordered_pairs(tests: nat, massives: nat) -> Seq<(usize, usize)> {
    Seq::new(
        tests * massives,
        |k: int| ((k / massives as int) as usize, (k % massives as int) as usize),
    )
}

/// The pairs `(first, second)` for `second` in `first + 1 .. n`, in rising
/// order.
pub open spec fn pair_row(first: int, n: int) -> Seq<(usize, usize)> {
    Seq::new((n - first - 1) as nat, |k: int| (first as usize, (first + 1 + k) as usize))
}

/// The rows of `first`, `first + 1`, and so on up to `n`, one after another.
pub open spec fn pairs_from(first: int, n: int) -> Seq<(usize, usize)>
    decreases n - first,
{
    if first + 1 >= n {
        Seq::empty()
    } else {
        pair_row(first, n) + pairs_from(first + 1, n)
    }
}

/// The pairs `(a, b)` with `a < b < n`, in lexicographic order.
pub open spec fn unordered_pairs(n: nat) -> Seq<(usize, usize)> {
    pairs_from(0, n as int)
}

/// Where `(a, b)` stands in `pairs_from(first, n)`.
pub open spec fn rank_from(first: int, n: int, a: int, b: int) -> int
    decreases a - first,
{
    if a <= first {
        b - a - 1
    } else {
        (n - first - 1) + rank_from(first + 1, n, a, b)
    }
}

/// Where `(a, b)` stands in `unordered_pairs(n)`.
pub open spec fn pair_rank(n: nat, a: int, b: int) -> int {
    rank_from(0, n as int, a, b)
}

/// `Itertools::cartesian_product` of the ranges `0..rows` and `0..cols`,
/// collected. The adaptor walks the second range once for each item of the
/// first, so the pairs come row by row: entry `row * cols + col` is
/// `(row, col)`.
#[verifier::external_body]
fn product_of_ranges(rows: usize, cols: usize) -> (out: Vec<(usize, usize)>)
    requires
        listable(rows * cols),
    ensures
        out@ == ordered_pairs(rows as nat, cols as nat),
{
    (0..rows).cartesian_product(0..cols).collect()
}

/// `Itertools::combinations` with `k = 2` on the range `0..n`, each
/// combination handed out as a pair. The adaptor yields the combinations in
/// lexicographic order of their positions in the range, and none if the
/// range holds fewer than two items.
#[verifier::external_body]
fn combinations_of_range(n: usize) -> (out: Vec<(usize, usize)>)
    requires
        listable(n * (n - 1) / 2),
    ensures
        out@ == unordered_pairs(n as nat),
{
    (0..n).combinations(2).map(|pair| (pair[0], pair[1])).collect()
}

/// The number of `(test, massive)` pairs, `tests * massives`, where a list of
/// that many can be held.
pub fn ordered_pair_count(tests: usize, massives: usize) -> (count: Option<usize>)
    ensures
        match count {
            Some(c) => listable(tests * massives) && c == tests * massives,
            None => !listable(tests * massives),
        },
{
    match tests.checked_mul(massives) {
        Some(product) => {
            if product <= LIST_LIMIT {
                Some(product)
            } else {
                None
            }
        },
        None => None,
    }
}

/// The number of pairs among `massives` bodies, `massives * (massives - 1) / 2`,
/// where a list of that many can be held.
pub fn unordered_pair_count(massives: usize) -> (count: Option<usize>)
    ensures
        match count {
            Some(c) => listable(massives * (massives - 1) / 2) && c == massives * (massives - 1)
                / 2,
            None => !listable(massives * (massives - 1) / 2),
        },
{
    if massives == 0 {
        return Some(0);
    }
    let others: usize = massives - 1;
    let halved: Option<usize> = if massives % 2 == 0 {
        proof {
            lemma_half_of_even(massives as int, others as int);
        }
        (massives / 2).checked_mul(others)
    } else {
        proof {
            lemma_half_of_even(others as int, massives as int);
        }
        massives.checked_mul(others / 2)
    };
    match halved {
        Some(half) => {
            if half <= LIST_LIMIT {
                Some(half)
            } else {
                None
            }
        },
        None => None,
    }
}

/// Half of a product with an even factor is the product with half of that factor.
proof fn lemma_half_of_even(even: int, other: int)
    requires
        even % 2 == 0,
    ensures
        (even / 2) * other == (even * other) / 2,
        other * (even / 2) == (other * even) / 2,
{
    let half = even / 2;
    assert(even == 2 * half);
    assert(even * other == 2 * (half * other)) by (nonlinear_arith)
        requires
            even == 2 * half,
    ;
    assert(other * even == even * other) by (nonlinear_arith);
    assert(other * half == half * other) by (nonlinear_arith);
}

/// Lists each `(test, massive)` pair once, test by test; `None` where the
/// list would be too long to hold.
pub fn test_massive_pairs(tests: usize, massives: usize) -> (pairs: Option<Vec<(usize, usize)>>)
    ensures
        match pairs {
            Some(list) => listable(tests * massives) && list@ == ordered_pairs(
                tests as nat,
                massives as nat,
            ),
            None => !listable(tests * massives),
        },
{
    match ordered_pair_count(tests, massives) {
        Some(_) => Some(product_of_ranges(tests, massives)),
        None => None,
    }
}

/// Lists each pair of distinct massive bodies once, the lower index first,
/// in lexicographic order; `None` where the list would be too long to hold.
pub fn massive_pairs(massives: usize) -> (pairs: Option<Vec<(usize, usize)>>)
    ensures
        match pairs {
            Some(list) => listable(massives * (massives - 1) / 2) && list@ == unordered_pairs(
                massives as nat,
            ),
            None => !listable(massives * (massives - 1) / 2),
        },
{
    match unordered_pair_count(massives) {
        Some(_) => Some(combinations_of_range(massives)),
        None => None,
    }
}

/// Every listed `(test, massive)` pair names a test particle and a massive
/// body of the run, and entry `test * massives + massive` is that pair.
pub proof fn lemma_ordered_pairs_entry(tests: nat, massives: nat, k: int)
    requires
        tests <= usize::MAX,
        massives <= usize::MAX,
        0 <= k < ordered_pairs(tests, massives).len(),
    ensures
        ordered_pairs(tests, massives)[k].0 < tests,
        ordered_pairs(tests, massives)[k].1 < massives,
        k == ordered_pairs(tests, massives)[k].0 * massives + ordered_pairs(tests, massives)[k].1,
{
    let m = massives as int;
    assert(m > 0) by (nonlinear_arith)
        requires
            0 <= k < tests * massives,
            m == massives,
    ;
    vstd::arithmetic::div_mod::lemma_fundamental_div_mod(k, m);
    vstd::arithmetic::div_mod::lemma_mod_bound(k, m);
    vstd::arithmetic::div_mod::lemma_div_pos_is_pos(k, m);
    assert(k / m < tests) by (nonlinear_arith)
        requires
            k == m * (k / m) + k % m,
            0 <= k % m,
            k < tests * m,
            m > 0,
    ;
    assert(m * (k / m) == (k / m) * m) by (nonlinear_arith);
}

/// Each `(test, massive)` pair of the run is listed exactly once.
pub proof fn lemma_ordered_pairs_exactly_once(tests: nat, massives: nat, test: int, massive: int)
    requires
        tests <= usize::MAX,
        massives <= usize::MAX,
        0 <= test < tests,
        0 <= massive < massives,
    ensures
        0 <= test * massives + massive < ordered_pairs(tests, massives).len(),
        ordered_pairs(tests, massives)[test * massives + massive] == (
            test as usize,
            massive as usize,
        ),
        forall|k: int|
            0 <= k < ordered_pairs(tests, massives).len() && (#[trigger] ordered_pairs(
                tests,
                massives,
            )[k]) == (test as usize, massive as usize) ==> k == test * massives + massive,
{
    let m = massives as int;
    let at = test * massives + massive;
    assert(at < tests * massives) by (nonlinear_arith)
        requires
            at == test * massives + massive,
            test < tests,
            0 <= massive < massives,
    ;
    assert(0 <= at) by (nonlinear_arith)
        requires
            at == test * massives + massive,
            0 <= test,
            0 <= massive,
    ;
    vstd::arithmetic::div_mod::lemma_fundamental_div_mod_converse(at, m, test, massive);
    assert forall|k: int|
        0 <= k < ordered_pairs(tests, massives).len() && (#[trigger] ordered_pairs(
            tests,
            massives,
        )[k]) == (test as usize, massive as usize) implies k == at by {
        lemma_ordered_pairs_entry(tests, massives, k);
    }
}

/// `pairs_from(first, n)` holds `(n - first) * (n - first - 1) / 2` pairs.
pub proof fn lemma_pairs_from_len(first: int, n: int)
    requires
        0 <= first <= n,
    ensures
        pairs_from(first, n).len() == (n - first) * (n - first - 1) / 2,
    decreases n - first,
{
    if first + 1 >= n {
        assert((n - first) * (n - first - 1) == 0) by (nonlinear_arith)
            requires
                first <= n <= first + 1,
        ;
    } else {
        lemma_pairs_from_len(first + 1, n);
        let d = n - first;
        assert(d * (d - 1) == (d - 1) * (d - 2) + 2 * (d - 1)) by (nonlinear_arith);
    }
}

/// Every pair of `pairs_from(first, n)` has `first <= a < b < n`, and
/// stands at its rank.
pub proof fn lemma_pairs_from_entry(first: int, n: int, k: int)
    requires
        0 <= first,
        n <= usize::MAX,
        0 <= k < pairs_from(first, n).len(),
    ensures
        first <= pairs_from(first, n)[k].0 < pairs_from(first, n)[k].1 < n,
        rank_from(first, n, pairs_from(first, n)[k].0 as int, pairs_from(first, n)[k].1 as int)
            == k,
    decreases n - first,
{
    if first + 1 < n {
        let row = pair_row(first, n);
        if k >= row.len() {
            lemma_pairs_from_entry(first + 1, n, k - row.len());
        }
    }
}

/// Each pair `(a, b)` with `first <= a < b < n` stands in
/// `pairs_from(first, n)`, at its rank.
pub proof fn lemma_pairs_from_rank(first: int, n: int, a: int, b: int)
    requires
        0 <= first <= a < b < n,
        n <= usize::MAX,
    ensures
        0 <= rank_from(first, n, a, b) < pairs_from(first, n).len(),
        pairs_from(first, n)[rank_from(first, n, a, b)] == (a as usize, b as usize),
    decreases a - first,
{
    if a > first {
        lemma_pairs_from_rank(first + 1, n, a, b);
    }
}

/// Among `n` bodies there are `n * (n - 1) / 2` pairs.
pub proof fn lemma_unordered_pairs_len(n: nat)
    ensures
        unordered_pairs(n).len() == n * (n - 1) / 2,
{
    lemma_pairs_from_len(0, n as int);
}

/// No body is paired with itself: every listed pair has its lower index
/// first and both indices below `n`.
pub proof fn lemma_unordered_pairs_entry(n: nat, k: int)
    requires
        n <= usize::MAX,
        0 <= k < unordered_pairs(n).len(),
    ensures
        unordered_pairs(n)[k].0 < unordered_pairs(n)[k].1 < n,
        pair_rank(n, unordered_pairs(n)[k].0 as int, unordered_pairs(n)[k].1 as int) == k,
{
    lemma_pairs_from_entry(0, n as int, k);
}

/// Each two distinct bodies are listed exactly once, in neither order a
/// second time.
pub proof fn lemma_unordered_pairs_exactly_once(n: nat, a: int, b: int)
    requires
        n <= usize::MAX,
        0 <= a < b < n,
    ensures
        0 <= pair_rank(n, a, b) < unordered_pairs(n).len(),
        unordered_pairs(n)[pair_rank(n, a, b)] == (a as usize, b as usize),
        forall|k: int|
            0 <= k < unordered_pairs(n).len() && ((#[trigger] unordered_pairs(n)[k]) == (
                a as usize,
                b as usize,
            ) || unordered_pairs(n)[k] == (b as usize, a as usize)) ==> k == pair_rank(n, a, b),
{
    lemma_pairs_from_rank(0, n as int, a, b);
    assert forall|k: int|
        0 <= k < unordered_pairs(n).len() && ((#[trigger] unordered_pairs(n)[k]) == (
            a as usize,
            b as usize,
        ) || unordered_pairs(n)[k] == (b as usize, a as usize)) implies k == pair_rank(n, a, b) by {
        lemma_unordered_pairs_entry(n, k);
    }
}

} // verus!
