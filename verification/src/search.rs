//! Similarity search: scoring, ranking, filtering and re-ranking.
//!
//! Scores are fixed-point integers. Every metric is defined exactly as an
//! integer formula over vectors whose components are bounded by
//! [`COMPONENT_LIMIT`](crate::store::COMPONENT_LIMIT) and whose length is at
//! most [`MAX_DIMENSIONS`](crate::store::MAX_DIMENSIONS); those bounds keep
//! every computation inside `i64` and are proved, not assumed, at each call.
//!
//! Ranking is a stable descending sort: ties keep the order in which rows
//! were inserted into the table. The whole search pipeline — pre-filter,
//! score, rank, truncate, post-filter — is one mathematical function of the
//! table and the query, and each search call returns exactly its value.

use crate::config::{IndexConfig, VectorSimilarityFunction};
use crate::error::VectorStoreError;
use crate::filter::{operator_text, FilterExpression};
use crate::store::{lemma_table_wf, valid_vector, Record, Table, COMPONENT_LIMIT, MAX_DIMENSIONS};
use vstd::math::abs;
use vstd::prelude::*;
use vstd::string::StrSliceExecFns;

verus! {

/// The largest magnitude any similarity score can reach: the squared
/// distance of two extreme vectors of the largest dimensionality.
pub const MAX_ABS_SCORE: i64 = 16_384_000_000_000_000;

/// The fixed-point scale of a Jaccard score: full similarity scores this.
pub const JACCARD_SCALE: i64 = 1_000_000;

/// What a lexical match adds to a hybrid score: more than any two vector
/// scores can differ, so containment of the query text always outranks mere
/// vector proximity.
pub const LEXICAL_BONUS: i64 = 100_000_000_000_000_000;

/// How a search is asked to traverse the index.
#[derive(Debug, Clone, Copy, PartialEq, Eq, Structural)]
pub enum SearchType {
    /// Full scan with exact distances.
    Exact,
    /// Index-accelerated, approximate traversal.
    Approximate,
    /// The backend's default strategy.
    Similarity,
}

/// Everything a search call can be tuned with.
#[derive(Debug, Clone)]
pub struct SearchParams {
    /// Applied to restrict the candidate set before scoring.
    pub pre_filter: Option<FilterExpression>,
    /// Applied to the already-ranked, truncated results; can leave fewer
    /// than the requested number even when more rows match the pre-filter.
    pub post_filter: Option<FilterExpression>,
    /// Extra bound variables handed through to a pushdown backend.
    pub params: Option<Vec<(String, String)>>,
    /// An upper bound on returned rows, combined with the per-call count.
    pub limit: usize,
    /// How the index is traversed.
    pub search_type: SearchType,
}

impl Default for SearchParams {
    /// No filters, no bindings, no row bound beyond the per-call count, and
    /// the backend's default traversal.
    fn default() -> (r: SearchParams)
        ensures
            r.pre_filter is None,
            r.post_filter is None,
            r.params is None,
            r.limit == usize::MAX,
            r.search_type == SearchType::Similarity,
    {
        SearchParams {
            pre_filter: None,
            post_filter: None,
            params: None,
            limit: usize::MAX,
            search_type: SearchType::Similarity,
        }
    }
}

/// The inner product of two equal-length vectors.
pub open spec fn dot_spec(a: Seq<i64>, b: Seq<i64>) -> int
    decreases a.len(),
{
    if a.len() == 0 || b.len() == 0 {
        0
    } else {
        dot_spec(a.drop_last(), b.drop_last()) + a.last() * b.last()
    }
}

/// The squared straight-line distance of two equal-length vectors.
pub open spec fn sqdist_spec(a: Seq<i64>, b: Seq<i64>) -> int
    decreases a.len(),
{
    if a.len() == 0 || b.len() == 0 {
        0
    } else {
        sqdist_spec(a.drop_last(), b.drop_last()) + (a.last() - b.last()) * (a.last() - b.last())
    }
}

/// The coordinate-wise (taxicab) distance of two equal-length vectors.
pub open spec fn l1_spec(a: Seq<i64>, b: Seq<i64>) -> int
    decreases a.len(),
{
    if a.len() == 0 || b.len() == 0 {
        0
    } else {
        l1_spec(a.drop_last(), b.drop_last()) + abs(a.last() - b.last())
    }
}

/// How many components two equal-length vectors agree on.
pub open spec fn eq_count_spec(a: Seq<i64>, b: Seq<i64>) -> int
    decreases a.len(),
{
    if a.len() == 0 || b.len() == 0 {
        0
    } else {
        eq_count_spec(a.drop_last(), b.drop_last()) + if a.last() == b.last() {
            1int
        } else {
            0int
        }
    }
}

/// A component clamped at zero, as generalized Jaccard similarity reads it.
pub open spec fn clamp0(x: int) -> int {
    if x < 0 {
        0
    } else {
        x
    }
}

/// The sum of component-wise minima, components clamped at zero.
pub open spec fn min_sum_spec(a: Seq<i64>, b: Seq<i64>) -> int
    decreases a.len(),
{
    if a.len() == 0 || b.len() == 0 {
        0
    } else {
        min_sum_spec(a.drop_last(), b.drop_last()) + if clamp0(a.last() as int) <= clamp0(
            b.last() as int,
        ) {
            clamp0(a.last() as int)
        } else {
            clamp0(b.last() as int)
        }
    }
}

/// The sum of component-wise maxima, components clamped at zero.
pub open spec fn max_sum_spec(a: Seq<i64>, b: Seq<i64>) -> int
    decreases a.len(),
{
    if a.len() == 0 || b.len() == 0 {
        0
    } else {
        max_sum_spec(a.drop_last(), b.drop_last()) + if clamp0(a.last() as int) >= clamp0(
            b.last() as int,
        ) {
            clamp0(a.last() as int)
        } else {
            clamp0(b.last() as int)
        }
    }
}

/// Generalized Jaccard similarity in fixed point: the ratio of the minimum
/// sum to the maximum sum, scaled by [`JACCARD_SCALE`]; two all-zero vectors
/// count as fully similar.
pub open spec fn jaccard_spec(a: Seq<i64>, b: Seq<i64>) -> int {
    let m = min_sum_spec(a, b);
    let mx = max_sum_spec(a, b);
    if mx == 0 {
        JACCARD_SCALE as int
    } else {
        m * (JACCARD_SCALE as int) / mx
    }
}

/// The score a metric assigns to a candidate vector against a query vector.
/// Metrics whose natural reading is a distance enter negated, so that a
/// higher score always means more similar:
///
/// - `Cosine` and `DotProduct` score the inner product — on unit-scaled
///   fixed-point embeddings the two rank identically;
/// - `Euclidean` scores the negated squared distance;
/// - `Manhattan` scores the negated taxicab distance;
/// - `Hamming` scores the number of agreeing components;
/// - `Jaccard` scores the scaled min-over-max ratio.
pub open spec fn score_spec(metric: VectorSimilarityFunction, query: Seq<i64>, v: Seq<i64>) -> int {
    match metric {
        VectorSimilarityFunction::Cosine => dot_spec(query, v),
        VectorSimilarityFunction::DotProduct => dot_spec(query, v),
        VectorSimilarityFunction::Euclidean => -sqdist_spec(query, v),
        VectorSimilarityFunction::Manhattan => -l1_spec(query, v),
        VectorSimilarityFunction::Jaccard => jaccard_spec(query, v),
        VectorSimilarityFunction::Hamming => eq_count_spec(query, v),
    }
}

/// Computes a metric's score.
///
/// Both vectors must be fit for one table: equal length within
/// [`MAX_DIMENSIONS`], components within [`COMPONENT_LIMIT`]. Within those
/// bounds no intermediate value leaves `i64`, and the result is exactly the
/// metric's defining formula, within [`MAX_ABS_SCORE`].
pub fn score(metric: VectorSimilarityFunction, query: &Vec<i64>, v: &Vec<i64>) -> (r: i64)
    requires
        query@.len() == v@.len() <= MAX_DIMENSIONS,
        forall|i: int|
            0 <= i < query@.len() ==> -COMPONENT_LIMIT <= #[trigger] query@[i] <= COMPONENT_LIMIT,
        forall|i: int|
            0 <= i < v@.len() ==> -COMPONENT_LIMIT <= #[trigger] v@[i] <= COMPONENT_LIMIT,
    ensures
        r == score_spec(metric, query@, v@),
        -MAX_ABS_SCORE <= r <= MAX_ABS_SCORE,
{
    match metric {
        VectorSimilarityFunction::Cosine => dot(query, v),
        VectorSimilarityFunction::DotProduct => dot(query, v),
        VectorSimilarityFunction::Euclidean => {
            let d = sqdist(query, v);
            -d
        },
        VectorSimilarityFunction::Manhattan => {
            let d = l1(query, v);
            -d
        },
        VectorSimilarityFunction::Jaccard => jaccard(query, v),
        VectorSimilarityFunction::Hamming => eq_count(query, v),
    }
}

/// Computes the inner product.
fn dot(a: &Vec<i64>, b: &Vec<i64>) -> (r: i64)
    requires
        a@.len() == b@.len() <= MAX_DIMENSIONS,
        forall|i: int|
            0 <= i < a@.len() ==> -COMPONENT_LIMIT <= #[trigger] a@[i] <= COMPONENT_LIMIT,
        forall|i: int|
            0 <= i < b@.len() ==> -COMPONENT_LIMIT <= #[trigger] b@[i] <= COMPONENT_LIMIT,
    ensures
        r == dot_spec(a@, b@),
        -MAX_ABS_SCORE <= r <= MAX_ABS_SCORE,
{
    let n = a.len();
    let mut acc: i64 = 0;
    let mut i: usize = 0;
    proof {
        assert(a@.subrange(0, 0) =~= Seq::<i64>::empty());
        assert(b@.subrange(0, 0) =~= Seq::<i64>::empty());
    }
    while i < n
        invariant
            i <= n,
            n == a@.len() == b@.len() <= MAX_DIMENSIONS,
            forall|k: int|
                0 <= k < a@.len() ==> -COMPONENT_LIMIT <= #[trigger] a@[k] <= COMPONENT_LIMIT,
            forall|k: int|
                0 <= k < b@.len() ==> -COMPONENT_LIMIT <= #[trigger] b@[k] <= COMPONENT_LIMIT,
            acc == dot_spec(a@.subrange(0, i as int), b@.subrange(0, i as int)),
            -(i as int) * 1_000_000_000_000 <= acc <= (i as int) * 1_000_000_000_000,
        decreases n - i,
    {
        let x = a[i];
        let y = b[i];
        proof {
            assert(-1_000_000_000_000 <= x * y <= 1_000_000_000_000) by (nonlinear_arith)
                requires
                    -COMPONENT_LIMIT <= x <= COMPONENT_LIMIT,
                    -COMPONENT_LIMIT <= y <= COMPONENT_LIMIT,
                    COMPONENT_LIMIT == 1_000_000,
            ;
            assert(a@.subrange(0, i + 1).drop_last() =~= a@.subrange(0, i as int));
            assert(b@.subrange(0, i + 1).drop_last() =~= b@.subrange(0, i as int));
        }
        acc = acc + x * y;
        i = i + 1;
    }
    proof {
        assert(a@.subrange(0, n as int) =~= a@);
        assert(b@.subrange(0, n as int) =~= b@);
    }
    acc
}

/// Computes the squared straight-line distance.
fn sqdist(a: &Vec<i64>, b: &Vec<i64>) -> (r: i64)
    requires
        a@.len() == b@.len() <= MAX_DIMENSIONS,
        forall|i: int|
            0 <= i < a@.len() ==> -COMPONENT_LIMIT <= #[trigger] a@[i] <= COMPONENT_LIMIT,
        forall|i: int|
            0 <= i < b@.len() ==> -COMPONENT_LIMIT <= #[trigger] b@[i] <= COMPONENT_LIMIT,
    ensures
        r == sqdist_spec(a@, b@),
        0 <= r <= MAX_ABS_SCORE,
{
    let n = a.len();
    let mut acc: i64 = 0;
    let mut i: usize = 0;
    proof {
        assert(a@.subrange(0, 0) =~= Seq::<i64>::empty());
        assert(b@.subrange(0, 0) =~= Seq::<i64>::empty());
    }
    while i < n
        invariant
            i <= n,
            n == a@.len() == b@.len() <= MAX_DIMENSIONS,
            forall|k: int|
                0 <= k < a@.len() ==> -COMPONENT_LIMIT <= #[trigger] a@[k] <= COMPONENT_LIMIT,
            forall|k: int|
                0 <= k < b@.len() ==> -COMPONENT_LIMIT <= #[trigger] b@[k] <= COMPONENT_LIMIT,
            acc == sqdist_spec(a@.subrange(0, i as int), b@.subrange(0, i as int)),
            0 <= acc <= (i as int) * 4_000_000_000_000,
        decreases n - i,
    {
        let x = a[i];
        let y = b[i];
        let d = x - y;
        proof {
            assert(0 <= d * d <= 4_000_000_000_000) by (nonlinear_arith)
                requires
                    -2_000_000 <= d <= 2_000_000,
            ;
            assert(a@.subrange(0, i + 1).drop_last() =~= a@.subrange(0, i as int));
            assert(b@.subrange(0, i + 1).drop_last() =~= b@.subrange(0, i as int));
        }
        acc = acc + d * d;
        i = i + 1;
    }
    proof {
        assert(a@.subrange(0, n as int) =~= a@);
        assert(b@.subrange(0, n as int) =~= b@);
    }
    acc
}

/// Computes the taxicab distance.
fn l1(a: &Vec<i64>, b: &Vec<i64>) -> (r: i64)
    requires
        a@.len() == b@.len() <= MAX_DIMENSIONS,
        forall|i: int|
            0 <= i < a@.len() ==> -COMPONENT_LIMIT <= #[trigger] a@[i] <= COMPONENT_LIMIT,
        forall|i: int|
            0 <= i < b@.len() ==> -COMPONENT_LIMIT <= #[trigger] b@[i] <= COMPONENT_LIMIT,
    ensures
        r == l1_spec(a@, b@),
        0 <= r <= MAX_ABS_SCORE,
{
    let n = a.len();
    let mut acc: i64 = 0;
    let mut i: usize = 0;
    proof {
        assert(a@.subrange(0, 0) =~= Seq::<i64>::empty());
        assert(b@.subrange(0, 0) =~= Seq::<i64>::empty());
    }
    while i < n
        invariant
            i <= n,
            n == a@.len() == b@.len() <= MAX_DIMENSIONS,
            forall|k: int|
                0 <= k < a@.len() ==> -COMPONENT_LIMIT <= #[trigger] a@[k] <= COMPONENT_LIMIT,
            forall|k: int|
                0 <= k < b@.len() ==> -COMPONENT_LIMIT <= #[trigger] b@[k] <= COMPONENT_LIMIT,
            acc == l1_spec(a@.subrange(0, i as int), b@.subrange(0, i as int)),
            0 <= acc <= (i as int) * 2_000_000,
        decreases n - i,
    {
        let x = a[i];
        let y = b[i];
        let d = if x >= y {
            x - y
        } else {
            y - x
        };
        proof {
            assert(a@.subrange(0, i + 1).drop_last() =~= a@.subrange(0, i as int));
            assert(b@.subrange(0, i + 1).drop_last() =~= b@.subrange(0, i as int));
        }
        acc = acc + d;
        i = i + 1;
    }
    proof {
        assert(a@.subrange(0, n as int) =~= a@);
        assert(b@.subrange(0, n as int) =~= b@);
    }
    acc
}

/// Counts agreeing components.
fn eq_count(a: &Vec<i64>, b: &Vec<i64>) -> (r: i64)
    requires
        a@.len() == b@.len() <= MAX_DIMENSIONS,
    ensures
        r == eq_count_spec(a@, b@),
        0 <= r <= MAX_ABS_SCORE,
{
    let n = a.len();
    let mut acc: i64 = 0;
    let mut i: usize = 0;
    proof {
        assert(a@.subrange(0, 0) =~= Seq::<i64>::empty());
        assert(b@.subrange(0, 0) =~= Seq::<i64>::empty());
    }
    while i < n
        invariant
            i <= n,
            n == a@.len() == b@.len() <= MAX_DIMENSIONS,
            acc == eq_count_spec(a@.subrange(0, i as int), b@.subrange(0, i as int)),
            0 <= acc <= i as int,
        decreases n - i,
    {
        proof {
            assert(a@.subrange(0, i + 1).drop_last() =~= a@.subrange(0, i as int));
            assert(b@.subrange(0, i + 1).drop_last() =~= b@.subrange(0, i as int));
        }
        if a[i] == b[i] {
            acc = acc + 1;
        }
        i = i + 1;
    }
    proof {
        assert(a@.subrange(0, n as int) =~= a@);
        assert(b@.subrange(0, n as int) =~= b@);
    }
    acc
}

/// Computes the scaled generalized Jaccard similarity.
fn jaccard(a: &Vec<i64>, b: &Vec<i64>) -> (r: i64)
    requires
        a@.len() == b@.len() <= MAX_DIMENSIONS,
        forall|i: int|
            0 <= i < a@.len() ==> -COMPONENT_LIMIT <= #[trigger] a@[i] <= COMPONENT_LIMIT,
        forall|i: int|
            0 <= i < b@.len() ==> -COMPONENT_LIMIT <= #[trigger] b@[i] <= COMPONENT_LIMIT,
    ensures
        r == jaccard_spec(a@, b@),
        0 <= r <= MAX_ABS_SCORE,
{
    let n = a.len();
    let mut msum: i64 = 0;
    let mut xsum: i64 = 0;
    let mut i: usize = 0;
    proof {
        assert(a@.subrange(0, 0) =~= Seq::<i64>::empty());
        assert(b@.subrange(0, 0) =~= Seq::<i64>::empty());
    }
    while i < n
        invariant
            i <= n,
            n == a@.len() == b@.len() <= MAX_DIMENSIONS,
            forall|k: int|
                0 <= k < a@.len() ==> -COMPONENT_LIMIT <= #[trigger] a@[k] <= COMPONENT_LIMIT,
            forall|k: int|
                0 <= k < b@.len() ==> -COMPONENT_LIMIT <= #[trigger] b@[k] <= COMPONENT_LIMIT,
            msum == min_sum_spec(a@.subrange(0, i as int), b@.subrange(0, i as int)),
            xsum == max_sum_spec(a@.subrange(0, i as int), b@.subrange(0, i as int)),
            0 <= msum <= xsum <= (i as int) * 1_000_000,
        decreases n - i,
    {
        let x = a[i];
        let y = b[i];
        let cx: i64 = if x < 0 {
            0
        } else {
            x
        };
        let cy: i64 = if y < 0 {
            0
        } else {
            y
        };
        let lo = if cx <= cy {
            cx
        } else {
            cy
        };
        let hi = if cx >= cy {
            cx
        } else {
            cy
        };
        proof {
            assert(a@.subrange(0, i + 1).drop_last() =~= a@.subrange(0, i as int));
            assert(b@.subrange(0, i + 1).drop_last() =~= b@.subrange(0, i as int));
        }
        msum = msum + lo;
        xsum = xsum + hi;
        i = i + 1;
    }
    proof {
        assert(a@.subrange(0, n as int) =~= a@);
        assert(b@.subrange(0, n as int) =~= b@);
    }
    if xsum == 0 {
        JACCARD_SCALE
    } else {
        let scaled = msum * JACCARD_SCALE;
        let r = scaled / xsum;
        proof {
            assert((msum as int) * 1_000_000 / (xsum as int) <= 1_000_000 && (msum as int)
                * 1_000_000 / (xsum as int) >= 0) by (nonlinear_arith)
                requires
                    0 <= msum <= xsum,
                    xsum > 0,
            ;
        }
        r
    }
}

/// Score-descending order of a ranking: earlier entries never score less
/// than later ones.
pub open spec fn sorted_desc<T>(s: Seq<(i64, T)>) -> bool {
    forall|i: int, j: int| 0 <= i < j < s.len() ==> (#[trigger] s[i]).0 >= (#[trigger] s[j]).0
}

/// One element placed into a descending ranking: it goes after every entry
/// scoring at least as much, so equal scores keep their existing order.
pub open spec fn insert_desc<T>(s: Seq<(i64, T)>, x: (i64, T)) -> Seq<(i64, T)>
    decreases s.len(),
{
    if s.len() == 0 {
        seq![x]
    } else if x.0 > s[0].0 {
        seq![x] + s
    } else {
        seq![s[0]] + insert_desc(s.drop_first(), x)
    }
}

/// The stable descending ranking of a sequence of scored entries: each entry
/// is placed in turn, so ties keep their input order.
pub open spec fn sort_desc<T>(s: Seq<(i64, T)>) -> Seq<(i64, T)>
    decreases s.len(),
{
    if s.len() == 0 {
        s
    } else {
        insert_desc(sort_desc(s.drop_last()), s.last())
    }
}

/// Placing one element into a sorted ranking keeps it sorted, grows it by
/// one, and adds no entry that was not there.
pub proof fn lemma_insert_desc_props<T>(s: Seq<(i64, T)>, x: (i64, T))
    requires
        sorted_desc(s),
    ensures
        sorted_desc(insert_desc(s, x)),
        insert_desc(s, x).len() == s.len() + 1,
        forall|j: int|
            0 <= j < insert_desc(s, x).len() ==> (insert_desc(s, x)[j] == x || s.contains(
                #[trigger] insert_desc(s, x)[j],
            )),
    decreases s.len(),
{
    if s.len() > 0 && !(x.0 > s[0].0) {
        assert(sorted_desc(s.drop_first()));
        lemma_insert_desc_props(s.drop_first(), x);
        let out = seq![s[0]] + insert_desc(s.drop_first(), x);
        assert forall|i: int, j: int| 0 <= i < j < out.len() implies (#[trigger] out[i]).0 >= (
        #[trigger] out[j]).0 by {
            if i == 0 {
                let inner = insert_desc(s.drop_first(), x);
                if inner[j - 1] == x {
                } else {
                    let m = choose|m: int|
                        0 <= m < s.drop_first().len() && s.drop_first()[m] == inner[j - 1];
                }
            }
        }
        assert forall|j: int| 0 <= j < out.len() implies (out[j] == x || s.contains(
            #[trigger] out[j],
        )) by {
            if j == 0 {
                assert(s[0] == out[0]);
            } else {
                let inner = insert_desc(s.drop_first(), x);
                if inner[j - 1] == x {
                } else {
                    let m = choose|m: int|
                        0 <= m < s.drop_first().len() && s.drop_first()[m] == inner[j - 1];
                    assert(s[m + 1] == out[j]);
                }
            }
        }
    }
}

/// A ranking is sorted, has the input's length, and holds only input
/// entries.
pub proof fn lemma_sort_desc_props<T>(s: Seq<(i64, T)>)
    ensures
        sorted_desc(sort_desc(s)),
        sort_desc(s).len() == s.len(),
        forall|j: int| 0 <= j < sort_desc(s).len() ==> s.contains(#[trigger] sort_desc(s)[j]),
    decreases s.len(),
{
    if s.len() > 0 {
        lemma_sort_desc_props(s.drop_last());
        lemma_insert_desc_props(sort_desc(s.drop_last()), s.last());
        assert forall|j: int| 0 <= j < sort_desc(s).len() implies s.contains(
            #[trigger] sort_desc(s)[j],
        ) by {
            let e = sort_desc(s)[j];
            if e == s.last() {
                assert(s[s.len() - 1] == e);
            } else {
                let m = choose|m: int|
                    0 <= m < sort_desc(s.drop_last()).len() && sort_desc(s.drop_last())[m] == e;
                let w = choose|w: int| 0 <= w < s.drop_last().len() && s.drop_last()[w] == e;
                assert(s[w] == e);
            }
        }
    }
}

/// Where the scan of a sorted ranking stops is where the spec inserts.
proof fn lemma_insert_desc_split<T>(s: Seq<(i64, T)>, x: (i64, T), j: int)
    requires
        sorted_desc(s),
        0 <= j <= s.len(),
        forall|k: int| 0 <= k < j ==> (#[trigger] s[k]).0 >= x.0,
        j < s.len() ==> x.0 > s[j].0,
    ensures
        insert_desc(s, x) == s.take(j) + seq![x] + s.skip(j),
    decreases j,
{
    if j == 0 {
        if s.len() == 0 {
            assert(insert_desc(s, x) =~= s.take(0) + seq![x] + s.skip(0));
        } else {
            assert(insert_desc(s, x) =~= s.take(0) + seq![x] + s.skip(0));
        }
    } else {
        assert(sorted_desc(s.drop_first()));
        lemma_insert_desc_split(s.drop_first(), x, j - 1);
        assert(insert_desc(s, x) =~= s.take(j) + seq![x] + s.skip(j));
    }
}

/// Sorts scored entries by descending score, stably.
pub fn sort_pairs<T>(input: Vec<(i64, T)>) -> (r: Vec<(i64, T)>)
    ensures
        r@ == sort_desc(input@),
        sorted_desc(r@),
{
    let ghost orig = input@;
    let mut rest = input;
    let mut out: Vec<(i64, T)> = Vec::new();
    proof {
        assert(orig.take(0) =~= Seq::<(i64, T)>::empty());
    }
    while rest.len() > 0
        invariant
            rest@.len() <= orig.len(),
            rest@ == orig.skip(orig.len() - rest@.len()),
            out@ == sort_desc(orig.take(orig.len() - rest@.len())),
            sorted_desc(out@),
        decreases rest@.len(),
    {
        let ghost processed = orig.len() - rest@.len();
        let x = rest.remove(0);
        proof {
            assert(x == orig[processed]);
            assert(rest@ =~= orig.skip(processed + 1));
            assert(orig.take(processed + 1).drop_last() =~= orig.take(processed));
            assert(orig.take(processed + 1).last() == orig[processed]);
        }
        let n_out = out.len();
        let mut j: usize = 0;
        while j < n_out && out[j].0 >= x.0
            invariant
                j <= n_out == out@.len(),
                forall|k: int| 0 <= k < j ==> (#[trigger] out@[k]).0 >= x.0,
            decreases n_out - j,
        {
            j = j + 1;
        }
        proof {
            lemma_insert_desc_split(out@, x, j as int);
            lemma_insert_desc_props(out@, x);
        }
        let ghost pre_insert = out@;
        out.insert(j, x);
        proof {
            assert(out@ =~= pre_insert.take(j as int) + seq![x] + pre_insert.skip(j as int));
            assert(out@ == insert_desc(pre_insert, x));
        }
    }
    proof {
        assert(orig.take(orig.len() as int) =~= orig);
    }
    out
}


/// One row of a search result: the score, the record's id, and its payload.
#[derive(Debug, Clone, PartialEq, Eq)]
pub struct SearchHit {
    /// The score the ranking used; higher is more similar.
    pub score: i64,
    /// The id of the matching record.
    pub id: String,
    /// The matching record's opaque payload.
    pub metadata: String,
}

/// Whether a record passes an optional filter; no filter passes everything.
pub open spec fn filter_ok(rec: Record, filter: Option<FilterExpression>) -> bool {
    match filter {
        Option::None => true,
        Option::Some(f) => f.spec_matches(rec.fields@),
    }
}

/// The scored candidates among the first `k` rows: each row passing the
/// pre-filter contributes its metric score and its position.
pub open spec fn cand_prefix(
    recs: Seq<Record>,
    qv: Seq<i64>,
    metric: VectorSimilarityFunction,
    pre: Option<FilterExpression>,
    k: int,
) -> Seq<(i64, usize)>
    decreases k,
{
    if k <= 0 {
        Seq::empty()
    } else {
        let rest = cand_prefix(recs, qv, metric, pre, k - 1);
        if filter_ok(recs[k - 1], pre) {
            rest.push((score_spec(metric, qv, recs[k - 1].vector@) as i64, (k - 1) as usize))
        } else {
            rest
        }
    }
}

/// The scored candidates of a whole table.
pub open spec fn candidates(
    recs: Seq<Record>,
    qv: Seq<i64>,
    metric: VectorSimilarityFunction,
    pre: Option<FilterExpression>,
) -> Seq<(i64, usize)> {
    cand_prefix(recs, qv, metric, pre, recs.len() as int)
}

/// Every candidate points into the first `k` rows, passed the pre-filter,
/// and carries that row's metric score.
pub proof fn lemma_cand_prefix_elems(
    recs: Seq<Record>,
    qv: Seq<i64>,
    metric: VectorSimilarityFunction,
    pre: Option<FilterExpression>,
    k: int,
)
    requires
        k <= usize::MAX,
    ensures
        forall|j: int|
            0 <= j < cand_prefix(recs, qv, metric, pre, k).len() ==> {
                let p = #[trigger] cand_prefix(recs, qv, metric, pre, k)[j];
                &&& 0 <= p.1 < k
                &&& filter_ok(recs[p.1 as int], pre)
                &&& p.0 == score_spec(metric, qv, recs[p.1 as int].vector@) as i64
            },
    decreases k,
{
    if k > 0 {
        lemma_cand_prefix_elems(recs, qv, metric, pre, k - 1);
        let rest = cand_prefix(recs, qv, metric, pre, k - 1);
        let cur = cand_prefix(recs, qv, metric, pre, k);
        assert forall|j: int| 0 <= j < cur.len() implies {
            let p = #[trigger] cur[j];
            &&& 0 <= p.1 < k
            &&& filter_ok(recs[p.1 as int], pre)
            &&& p.0 == score_spec(metric, qv, recs[p.1 as int].vector@) as i64
        } by {
            if filter_ok(recs[k - 1], pre) && j == cur.len() - 1 {
                assert(cur[j].1 == (k - 1) as usize);
            } else {
                assert(cur[j] == rest[j]);
            }
        }
    }
}

/// The predicate a ranked candidate must meet to pass the post-filter.
pub open spec fn post_keeps(recs: Seq<Record>, post: Option<FilterExpression>) -> spec_fn(
    (i64, usize),
) -> bool {
    |p: (i64, usize)| filter_ok(recs[p.1 as int], post)
}

/// The rows a list of ranked candidates stands for.
pub open spec fn hits_of(recs: Seq<Record>, pairs: Seq<(i64, usize)>) -> Seq<SearchHit> {
    pairs.map_values(
        |p: (i64, usize)|
            SearchHit { score: p.0, id: recs[p.1 as int].id, metadata: recs[p.1 as int].metadata },
    )
}

/// How many ranked rows are kept: the smaller of the requested count and the
/// parameter limit, capped by how many rows there are.
pub open spec fn cutoff(n: int, limit: int, len: int) -> int {
    let c = if n <= limit {
        n
    } else {
        limit
    };
    if c <= len {
        c
    } else {
        len
    }
}

/// The value of one similarity search: rows passing the pre-filter are
/// scored and ranked stably by descending score, the ranking is cut to the
/// requested count and limit, the post-filter prunes the cut ranking, and
/// what remains is returned in ranking order.
pub open spec fn search_spec(
    recs: Seq<Record>,
    qv: Seq<i64>,
    metric: VectorSimilarityFunction,
    params: SearchParams,
    n: int,
) -> Seq<SearchHit> {
    let ranked = sort_desc(candidates(recs, qv, metric, params.pre_filter));
    let cut = cutoff(n, params.limit as int, ranked.len() as int);
    hits_of(recs, ranked.take(cut).filter(post_keeps(recs, params.post_filter)))
}

/// A search result reduced to scores and ids.
pub open spec fn ids_of(hits: Seq<SearchHit>) -> Seq<(i64, String)> {
    hits.map_values(|h: SearchHit| (h.score, h.id))
}

/// The scored candidates of a hybrid search over the first `k` rows: the
/// metric score, raised by [`LEXICAL_BONUS`] when the row's payload contains
/// the query text, so a lexical match always outranks mere vector proximity.
pub open spec fn hybrid_cand_prefix(
    recs: Seq<Record>,
    qv: Seq<i64>,
    metric: VectorSimilarityFunction,
    pre: Option<FilterExpression>,
    query: Seq<char>,
    k: int,
) -> Seq<(i64, usize)>
    decreases k,
{
    if k <= 0 {
        Seq::empty()
    } else {
        let rest = hybrid_cand_prefix(recs, qv, metric, pre, query, k - 1);
        if filter_ok(recs[k - 1], pre) {
            rest.push(
                (
                    (score_spec(metric, qv, recs[k - 1].vector@) + lexical_bonus_of(
                        recs[k - 1].metadata@,
                        query,
                    )) as i64,
                    (k - 1) as usize,
                ),
            )
        } else {
            rest
        }
    }
}

/// The lexical component of a hybrid score.
pub open spec fn lexical_bonus_of(metadata: Seq<char>, query: Seq<char>) -> int {
    if is_substring_of(metadata, query) {
        LEXICAL_BONUS as int
    } else {
        0
    }
}

/// The value of one hybrid search; the pipeline of [`search_spec`] over the
/// lexically raised scores.
pub open spec fn hybrid_spec(
    recs: Seq<Record>,
    qv: Seq<i64>,
    metric: VectorSimilarityFunction,
    params: SearchParams,
    query: Seq<char>,
    n: int,
) -> Seq<SearchHit> {
    let ranked = sort_desc(hybrid_cand_prefix(recs, qv, metric, params.pre_filter, query, recs.len() as int));
    let cut = cutoff(n, params.limit as int, ranked.len() as int);
    hits_of(recs, ranked.take(cut).filter(post_keeps(recs, params.post_filter)))
}

/// Every hybrid candidate points into the first `k` rows and passed the
/// pre-filter.
pub proof fn lemma_hybrid_cand_elems(
    recs: Seq<Record>,
    qv: Seq<i64>,
    metric: VectorSimilarityFunction,
    pre: Option<FilterExpression>,
    query: Seq<char>,
    k: int,
)
    requires
        k <= usize::MAX,
    ensures
        forall|j: int|
            0 <= j < hybrid_cand_prefix(recs, qv, metric, pre, query, k).len() ==> {
                let p = #[trigger] hybrid_cand_prefix(recs, qv, metric, pre, query, k)[j];
                0 <= p.1 < k
            },
    decreases k,
{
    if k > 0 {
        lemma_hybrid_cand_elems(recs, qv, metric, pre, query, k - 1);
        let rest = hybrid_cand_prefix(recs, qv, metric, pre, query, k - 1);
        let cur = hybrid_cand_prefix(recs, qv, metric, pre, query, k);
        assert forall|j: int| 0 <= j < cur.len() implies 0 <= (#[trigger] cur[j]).1 < k by {
            if filter_ok(recs[k - 1], pre) && j == cur.len() - 1 {
                assert(cur[j].1 == (k - 1) as usize);
            } else {
                assert(cur[j] == rest[j]);
            }
        }
    }
}

/// Pruning a sorted ranking keeps it sorted.
pub proof fn lemma_filter_sorted<T>(s: Seq<(i64, T)>, pred: spec_fn((i64, T)) -> bool)
    requires
        sorted_desc(s),
    ensures
        sorted_desc(s.filter(pred)),
        forall|j: int|
            0 <= j < s.filter(pred).len() ==> exists|m: int|
                0 <= m < s.len() && s[m] == #[trigger] s.filter(pred)[j],
    decreases s.len(),
{
    reveal(Seq::filter);
    if s.len() > 0 {
        let prefix = s.drop_last();
        assert(sorted_desc(prefix));
        lemma_filter_sorted(prefix, pred);
        let f = s.filter(pred);
        let fp = prefix.filter(pred);
        assert forall|j: int| 0 <= j < f.len() implies exists|m: int|
            0 <= m < s.len() && s[m] == #[trigger] f[j] by {
            if pred(s.last()) && j == f.len() - 1 {
                assert(s[s.len() - 1] == f[j]);
            } else {
                let m = choose|m: int| 0 <= m < prefix.len() && prefix[m] == fp[j];
                assert(s[m] == f[j]);
            }
        }
        assert forall|i: int, j: int| 0 <= i < j < f.len() implies (#[trigger] f[i]).0 >= (
        #[trigger] f[j]).0 by {
            if pred(s.last()) && j == f.len() - 1 {
                let m = choose|m: int| 0 <= m < prefix.len() && prefix[m] == fp[i];
            }
        }
    }
}

/// Whether `needle` occurs contiguously inside `hay`.
pub open spec fn is_substring_of(hay: Seq<char>, needle: Seq<char>) -> bool {
    exists|k: int|
        0 <= k <= hay.len() - needle.len() && #[trigger] hay.subrange(k, k + needle.len())
            == needle
}

/// Decides whether `needle` occurs inside `hay`.
fn str_contains(hay: &str, needle: &str) -> (r: bool)
    ensures
        r == is_substring_of(hay@, needle@),
{
    let h = hay.unicode_len();
    let m = needle.unicode_len();
    if m > h {
        return false;
    }
    let mut k: usize = 0;
    while k <= h - m
        invariant
            m <= h == hay@.len(),
            m == needle@.len(),
            k <= h - m + 1,
            forall|k2: int|
                0 <= k2 < k ==> #[trigger] hay@.subrange(k2, k2 + needle@.len()) != needle@,
        decreases h - m + 1 - k,
    {
        let mut t: usize = 0;
        let mut matched = true;
        while t < m
            invariant
                m <= h == hay@.len(),
                m == needle@.len(),
                k <= h - m,
                t <= m,
                matched <==> (forall|u: int| 0 <= u < t ==> hay@[k + u] == needle@[u]),
            decreases m - t,
        {
            let same = hay.get_char(k + t) == needle.get_char(t);
            matched = matched && same;
            t = t + 1;
        }
        if matched {
            proof {
                assert(hay@.subrange(k as int, k + needle@.len()) =~= needle@);
            }
            return true;
        }
        proof {
            if hay@.subrange(k as int, k + needle@.len()) == needle@ {
                assert forall|u: int| 0 <= u < m implies hay@[k + u] == needle@[u] by {
                    assert(hay@.subrange(k as int, k + needle@.len())[u] == needle@[u]);
                }
            }
        }
        k = k + 1;
    }
    proof {
        assert forall|k2: int| 0 <= k2 <= hay@.len() - needle@.len() implies #[trigger] hay@.subrange(
            k2,
            k2 + needle@.len(),
        ) != needle@ by {
            assert(k2 < k);
        }
    }
    false
}

/// A ready-to-render search request for a pushdown backend: everything the
/// backend needs to evaluate the same pipeline server-side.
#[derive(Debug, Clone)]
pub struct QueryPlan {
    /// The table the search scans.
    pub table: String,
    /// The record property holding the embeddings.
    pub embedding_property: String,
    /// How many rows the backend should return at most.
    pub limit: usize,
    /// How the backend should traverse its index.
    pub search_type: SearchType,
    /// The pre-filter, rendered as a clause of the query grammar.
    pub pre_clause: Option<String>,
    /// The post-filter, rendered as a clause of the query grammar.
    pub post_clause: Option<String>,
}

/// The orchestrator of similarity search over one index.
///
/// It owns a validated [`IndexConfig`] and turns queries into exact results:
/// each search method's outcome is one mathematical function of the table
/// and the query.
#[derive(Debug, Clone)]
pub struct VectorIndex {
    config: IndexConfig,
}

impl VectorIndex {
    /// The configuration the index was created with.
    pub closed spec fn spec_config(&self) -> IndexConfig {
        self.config
    }

    /// The metric this index ranks by.
    pub open spec fn spec_metric(&self) -> VectorSimilarityFunction {
        self.spec_config().similarity_function
    }

    /// Creates an index over a validated configuration; fails fast with the
    /// configuration's first violation otherwise.
    pub fn new(config: IndexConfig) -> (r: Result<VectorIndex, VectorStoreError>)
        ensures
            r is Ok <==> config.valid(),
            r matches Ok(ix) ==> ix.spec_config() == config,
            r is Err ==> (r matches Err(VectorStoreError::InvalidConfigurationError(_))
                || r matches Err(VectorStoreError::InvalidEmbeddingProperty(_)) || r matches Err(
                VectorStoreError::InvalidMaxElements(_),
            ) || r matches Err(VectorStoreError::InvalidBatchSize(_)) || r matches Err(
                VectorStoreError::InvalidThreadCount(_),
            )),
    {
        config.validate()?;
        Ok(VectorIndex { config })
    }

    /// The index's name.
    pub fn name(&self) -> (r: &String)
        ensures
            r@ == self.spec_config().index_name@,
    {
        &self.config.index_name
    }

    /// The index's configuration.
    pub fn config(&self) -> (r: &IndexConfig)
        ensures
            *r == self.spec_config(),
    {
        &self.config
    }

    /// Builds the pushdown request for a search: which table, which
    /// embedding property, how many rows, which traversal, and the filters
    /// rendered as clauses.
    pub fn build_search_query(&self, table: &Table, n: usize, params: &SearchParams) -> (r:
        QueryPlan)
        ensures
            r.table@ == table.spec_name(),
            r.embedding_property@ == self.spec_config().embedding_property@,
            r.limit == cutoff(n as int, params.limit as int, n as int),
            r.search_type == params.search_type,
            r.pre_clause is Some <==> params.pre_filter is Some,
            params.pre_filter matches Some(f) ==> (r.pre_clause matches Some(c) && c@
                == f.spec_field() + " "@ + operator_text(f.spec_operator()) + " "@ + f.spec_raw()),
            r.post_clause is Some <==> params.post_filter is Some,
            params.post_filter matches Some(f) ==> (r.post_clause matches Some(c) && c@
                == f.spec_field() + " "@ + operator_text(f.spec_operator()) + " "@ + f.spec_raw()),
    {
        let limit = if n < params.limit {
            n
        } else {
            params.limit
        };
        let pre_clause = match &params.pre_filter {
            Some(f) => Some(f.to_clause()),
            None => None,
        };
        let post_clause = match &params.post_filter {
            Some(f) => Some(f.to_clause()),
            None => None,
        };
        QueryPlan {
            table: table.name().clone(),
            embedding_property: self.config.embedding_property.clone(),
            limit,
            search_type: params.search_type,
            pre_clause,
            post_clause,
        }
    }

    /// Similarity search: the top rows of the table by this index's metric.
    ///
    /// Returns exactly [`search_spec`] of the table and the query: rows
    /// passing the pre-filter, ranked by strictly descending score with ties
    /// in insertion order, cut to `n` and the parameter limit, then pruned
    /// by the post-filter. Fails — before reading any row — iff the query
    /// vector does not fit the table.
    pub fn top_n(&self, table: &Table, query_vector: &Vec<i64>, n: usize, params: &SearchParams)
        -> (r: Result<Vec<SearchHit>, VectorStoreError>)
        requires
            table.wf(),
        ensures
            r is Ok <==> valid_vector(query_vector@, table.spec_dimensions()),
            r is Err ==> (r matches Err(VectorStoreError::InvalidDataError(_)) || r matches Err(
                VectorStoreError::DimensionMismatch { .. },
            )),
            r matches Ok(hits) ==> hits@ == search_spec(
                table.spec_records(),
                query_vector@,
                self.spec_metric(),
                *params,
                n as int,
            ),
            r matches Ok(hits) ==> (forall|a: int, b: int|
                0 <= a < b < hits@.len() ==> (#[trigger] hits@[a]).score >= (
                #[trigger] hits@[b]).score),
    {
        table.check_vector(query_vector)?;
        let ghost recs = table.spec_records();
        let ghost metric = self.spec_metric();
        let ghost pre = params.pre_filter;
        let ghost post = params.post_filter;

        // score the rows that pass the pre-filter
        let row_count = table.len();
        let mut cands: Vec<(i64, usize)> = Vec::new();
        let mut i: usize = 0;
        while i < row_count
            invariant
                i <= row_count == recs.len(),
                table.wf(),
                recs == table.spec_records(),
                metric == self.spec_metric(),
                pre == params.pre_filter,
                valid_vector(query_vector@, table.spec_dimensions()),
                cands@ == cand_prefix(recs, query_vector@, metric, pre, i as int),
            decreases row_count - i,
        {
            proof {
                lemma_table_wf(table);
            }
            let rec = table.get(i);
            let passes = match &params.pre_filter {
                Some(f) => f.matches(&rec.fields),
                None => true,
            };
            if passes {
                let s = score(self.config.similarity_function, query_vector, &rec.vector);
                cands.push((s, i));
            }
            i = i + 1;
        }
        let ghost candseq = cands@;

        // rank by descending score, stably
        let mut ranked = sort_pairs(cands);
        proof {
            lemma_cand_prefix_elems(recs, query_vector@, metric, pre, recs.len() as int);
            lemma_sort_desc_props::<usize>(candseq);
            assert forall|t: int| 0 <= t < ranked@.len() implies 0 <= (#[trigger] ranked@[t]).1
                < recs.len() by {
                let e = ranked@[t];
                let m = choose|m: int| 0 <= m < candseq.len() && candseq[m] == e;
            }
        }

        // cut the ranking to the requested count and limit
        let limit = if n < params.limit {
            n
        } else {
            params.limit
        };
        let ghost full_ranking = ranked@;
        ranked.truncate(limit);
        proof {
            let cut = cutoff(n as int, params.limit as int, full_ranking.len() as int);
            assert(ranked@ =~= full_ranking.take(cut));
        }

        // prune the cut ranking with the post-filter
        let kept_count = ranked.len();
        let mut kept: Vec<(i64, usize)> = Vec::new();
        let mut j: usize = 0;
        proof {
            reveal(Seq::filter);
            assert(ranked@.take(0) =~= Seq::<(i64, usize)>::empty());
        }
        while j < kept_count
            invariant
                j <= kept_count == ranked@.len(),
                recs == table.spec_records(),
                post == params.post_filter,
                forall|t: int| 0 <= t < ranked@.len() ==> 0 <= (#[trigger] ranked@[t]).1 < recs.len(),
                forall|t: int| 0 <= t < kept@.len() ==> 0 <= (#[trigger] kept@[t]).1 < recs.len(),
                kept@ == ranked@.take(j as int).filter(post_keeps(recs, post)),
            decreases kept_count - j,
        {
            let p = ranked[j];
            let passes = match &params.post_filter {
                Some(f) => f.matches(&table.get(p.1).fields),
                None => true,
            };
            proof {
                reveal(Seq::filter);
                assert(post_keeps(recs, post)(p) == passes);
                assert(ranked@.take(j + 1).drop_last() =~= ranked@.take(j as int));
                assert(ranked@.take(j + 1).last() == p);
            }
            if passes {
                kept.push(p);
            }
            j = j + 1;
        }
        proof {
            assert(ranked@.take(kept_count as int) =~= ranked@);
        }

        // read the surviving rows back as hits
        let final_count = kept.len();
        let mut hits: Vec<SearchHit> = Vec::new();
        let mut j: usize = 0;
        proof {
            assert(kept@.take(0) =~= Seq::<(i64, usize)>::empty());
            assert(hits@ =~= hits_of(recs, kept@.take(0)));
        }
        while j < final_count
            invariant
                j <= final_count == kept@.len(),
                recs == table.spec_records(),
                forall|t: int| 0 <= t < kept@.len() ==> 0 <= (#[trigger] kept@[t]).1 < recs.len(),
                hits@ == hits_of(recs, kept@.take(j as int)),
            decreases final_count - j,
        {
            let p = kept[j];
            let rec = table.get(p.1);
            hits.push(SearchHit { score: p.0, id: rec.id.clone(), metadata: rec.metadata.clone() });
            proof {
                assert(hits@ =~= hits_of(recs, kept@.take(j + 1)));
            }
            j = j + 1;
        }
        proof {
            assert(kept@.take(final_count as int) =~= kept@);
            lemma_filter_sorted(ranked@, post_keeps(recs, post));
        }
        Ok(hits)
    }

    /// Similarity search returning only scores and ids: the same rows in the
    /// same order as [`top_n`](Self::top_n), with payloads skipped.
    pub fn top_n_ids(
        &self,
        table: &Table,
        query_vector: &Vec<i64>,
        n: usize,
        params: &SearchParams,
    ) -> (r: Result<Vec<(i64, String)>, VectorStoreError>)
        requires
            table.wf(),
        ensures
            r is Ok <==> valid_vector(query_vector@, table.spec_dimensions()),
            r is Err ==> (r matches Err(VectorStoreError::InvalidDataError(_)) || r matches Err(
                VectorStoreError::DimensionMismatch { .. },
            )),
            r matches Ok(pairs) ==> pairs@ == ids_of(
                search_spec(
                    table.spec_records(),
                    query_vector@,
                    self.spec_metric(),
                    *params,
                    n as int,
                ),
            ),
    {
        let hits = self.top_n(table, query_vector, n, params)?;
        let ghost full = hits@;
        let mut rest = hits;
        let mut out: Vec<(i64, String)> = Vec::new();
        proof {
            assert(out@ =~= ids_of(full.take(0)));
        }
        while rest.len() > 0
            invariant
                rest@.len() <= full.len(),
                rest@ == full.skip(full.len() - rest@.len()),
                out@ == ids_of(full.take(full.len() - rest@.len())),
            decreases rest@.len(),
        {
            let ghost processed = full.len() - rest@.len();
            let h = rest.remove(0);
            proof {
                assert(h == full[processed]);
                assert(rest@ =~= full.skip(processed + 1));
            }
            out.push((h.score, h.id));
            proof {
                assert(out@ =~= ids_of(full.take(processed + 1)));
            }
        }
        proof {
            assert(full.take(full.len() as int) =~= full);
        }
        Ok(out)
    }

    /// Hybrid search: lexical match and vector similarity combined.
    ///
    /// A row whose payload contains the query text outranks every row that
    /// merely sits near the query vector; within each group the metric
    /// decides. Empty query text is an input-validation error, reported
    /// before any row is read; asking for zero rows is a valid request that
    /// succeeds with an empty result.
    pub fn hybrid_search(
        &self,
        table: &Table,
        query_text: &str,
        query_vector: &Vec<i64>,
        n: usize,
        params: &SearchParams,
    ) -> (r: Result<Vec<SearchHit>, VectorStoreError>)
        requires
            table.wf(),
        ensures
            r is Ok <==> (query_text@.len() > 0 && valid_vector(
                query_vector@,
                table.spec_dimensions(),
            )),
            query_text@.len() == 0 ==> (r matches Err(VectorStoreError::InvalidDataError(_))),
            r is Err ==> (r matches Err(VectorStoreError::InvalidDataError(_)) || r matches Err(
                VectorStoreError::DimensionMismatch { .. },
            )),
            r matches Ok(hits) ==> hits@ == hybrid_spec(
                table.spec_records(),
                query_vector@,
                self.spec_metric(),
                *params,
                query_text@,
                n as int,
            ),
            r matches Ok(hits) ==> (n == 0 ==> hits@.len() == 0),
            r matches Ok(hits) ==> (forall|a: int, b: int|
                0 <= a < b < hits@.len() ==> (#[trigger] hits@[a]).score >= (
                #[trigger] hits@[b]).score),
    {
        if query_text.is_empty() {
            return Err(
                VectorStoreError::InvalidDataError("Query text cannot be empty".to_owned()),
            );
        }
        table.check_vector(query_vector)?;
        let ghost recs = table.spec_records();
        let ghost metric = self.spec_metric();
        let ghost pre = params.pre_filter;
        let ghost post = params.post_filter;

        // score the rows that pass the pre-filter, lexically raised
        let row_count = table.len();
        let mut cands: Vec<(i64, usize)> = Vec::new();
        let mut i: usize = 0;
        while i < row_count
            invariant
                i <= row_count == recs.len(),
                table.wf(),
                recs == table.spec_records(),
                metric == self.spec_metric(),
                pre == params.pre_filter,
                valid_vector(query_vector@, table.spec_dimensions()),
                cands@ == hybrid_cand_prefix(recs, query_vector@, metric, pre, query_text@, i as int),
            decreases row_count - i,
        {
            proof {
                lemma_table_wf(table);
            }
            let rec = table.get(i);
            let passes = match &params.pre_filter {
                Some(f) => f.matches(&rec.fields),
                None => true,
            };
            if passes {
                let vs = score(self.config.similarity_function, query_vector, &rec.vector);
                let bonus: i64 = if str_contains(rec.metadata.as_str(), query_text) {
                    LEXICAL_BONUS
                } else {
                    0
                };
                cands.push((vs + bonus, i));
            }
            i = i + 1;
        }
        let ghost candseq = cands@;

        // rank, cut, prune and read back, exactly as a plain search does
        let mut ranked = sort_pairs(cands);
        proof {
            lemma_hybrid_cand_elems(recs, query_vector@, metric, pre, query_text@, recs.len() as int);
            lemma_sort_desc_props::<usize>(candseq);
            assert forall|t: int| 0 <= t < ranked@.len() implies 0 <= (#[trigger] ranked@[t]).1
                < recs.len() by {
                let e = ranked@[t];
                let m = choose|m: int| 0 <= m < candseq.len() && candseq[m] == e;
            }
        }
        let limit = if n < params.limit {
            n
        } else {
            params.limit
        };
        let ghost full_ranking = ranked@;
        ranked.truncate(limit);
        proof {
            let cut = cutoff(n as int, params.limit as int, full_ranking.len() as int);
            assert(ranked@ =~= full_ranking.take(cut));
        }
        let kept_count = ranked.len();
        let mut kept: Vec<(i64, usize)> = Vec::new();
        let mut j: usize = 0;
        proof {
            reveal(Seq::filter);
            assert(ranked@.take(0) =~= Seq::<(i64, usize)>::empty());
        }
        while j < kept_count
            invariant
                j <= kept_count == ranked@.len(),
                recs == table.spec_records(),
                post == params.post_filter,
                forall|t: int| 0 <= t < ranked@.len() ==> 0 <= (#[trigger] ranked@[t]).1 < recs.len(),
                forall|t: int| 0 <= t < kept@.len() ==> 0 <= (#[trigger] kept@[t]).1 < recs.len(),
                kept@ == ranked@.take(j as int).filter(post_keeps(recs, post)),
            decreases kept_count - j,
        {
            let p = ranked[j];
            let passes = match &params.post_filter {
                Some(f) => f.matches(&table.get(p.1).fields),
                None => true,
            };
            proof {
                reveal(Seq::filter);
                assert(post_keeps(recs, post)(p) == passes);
                assert(ranked@.take(j + 1).drop_last() =~= ranked@.take(j as int));
                assert(ranked@.take(j + 1).last() == p);
            }
            if passes {
                kept.push(p);
            }
            j = j + 1;
        }
        proof {
            assert(ranked@.take(kept_count as int) =~= ranked@);
        }
        let final_count = kept.len();
        let mut hits: Vec<SearchHit> = Vec::new();
        let mut j: usize = 0;
        proof {
            assert(kept@.take(0) =~= Seq::<(i64, usize)>::empty());
            assert(hits@ =~= hits_of(recs, kept@.take(0)));
        }
        while j < final_count
            invariant
                j <= final_count == kept@.len(),
                recs == table.spec_records(),
                forall|t: int| 0 <= t < kept@.len() ==> 0 <= (#[trigger] kept@[t]).1 < recs.len(),
                hits@ == hits_of(recs, kept@.take(j as int)),
            decreases final_count - j,
        {
            let p = kept[j];
            let rec = table.get(p.1);
            hits.push(SearchHit { score: p.0, id: rec.id.clone(), metadata: rec.metadata.clone() });
            proof {
                assert(hits@ =~= hits_of(recs, kept@.take(j + 1)));
            }
            j = j + 1;
        }
        proof {
            assert(kept@.take(final_count as int) =~= kept@);
            lemma_filter_sorted(ranked@, post_keeps(recs, post));
            if n == 0 {
                assert(ranked@ =~= Seq::<(i64, usize)>::empty());
                reveal(Seq::filter);
            }
        }
        Ok(hits)
    }

    /// Re-orders previously obtained results by caller-supplied scores,
    /// without re-querying: `scores[i]` is the caller's new score for
    /// `results[i]` — typically computed by a scoring function over the
    /// payload — and the result is the same rows carrying their new scores,
    /// ranked stably by descending score.
    pub fn rerank(&self, results: Vec<SearchHit>, scores: &Vec<i64>) -> (r: Result<
        Vec<SearchHit>,
        VectorStoreError,
    >)
        ensures
            r is Ok <==> scores@.len() == results@.len(),
            r is Err ==> (r matches Err(VectorStoreError::InvalidDataError(_))),
            r matches Ok(v) ==> v@ == rerank_spec(results@, scores@),
            r matches Ok(v) ==> (forall|a: int, b: int|
                0 <= a < b < v@.len() ==> (#[trigger] v@[a]).score >= (#[trigger] v@[b]).score),
    {
        if scores.len() != results.len() {
            return Err(
                VectorStoreError::InvalidDataError(
                    "One score is needed for each result".to_owned(),
                ),
            );
        }
        let ghost full = results@;
        let mut rest = results;
        let mut pairs: Vec<(i64, SearchHit)> = Vec::new();
        proof {
            assert(pairs@ =~= rescored(full, scores@).take(0));
        }
        while rest.len() > 0
            invariant
                rest@.len() <= full.len(),
                full.len() == scores@.len(),
                rest@ == full.skip(full.len() - rest@.len()),
                pairs@ == rescored(full, scores@).take(full.len() - rest@.len()),
            decreases rest@.len(),
        {
            let ghost processed = full.len() - rest@.len();
            let h = rest.remove(0);
            proof {
                assert(h == full[processed]);
                assert(rest@ =~= full.skip(processed + 1));
            }
            let s = scores[pairs.len()];
            pairs.push((s, h));
            proof {
                assert(pairs@ =~= rescored(full, scores@).take(processed + 1));
            }
        }
        proof {
            assert(rescored(full, scores@).take(full.len() as int) =~= rescored(full, scores@));
        }
        let ranked = sort_pairs(pairs);
        let ghost rankedseq = ranked@;
        let mut rest = ranked;
        let mut out: Vec<SearchHit> = Vec::new();
        proof {
            assert(out@ =~= hits_of_pairs(rankedseq.take(0)));
        }
        while rest.len() > 0
            invariant
                rest@.len() <= rankedseq.len(),
                rest@ == rankedseq.skip(rankedseq.len() - rest@.len()),
                out@ == hits_of_pairs(rankedseq.take(rankedseq.len() - rest@.len())),
            decreases rest@.len(),
        {
            let ghost processed = rankedseq.len() - rest@.len();
            let p = rest.remove(0);
            proof {
                assert(p == rankedseq[processed]);
                assert(rest@ =~= rankedseq.skip(processed + 1));
            }
            out.push(SearchHit { score: p.0, id: p.1.id, metadata: p.1.metadata });
            proof {
                assert(out@ =~= hits_of_pairs(rankedseq.take(processed + 1)));
            }
        }
        proof {
            assert(rankedseq.take(rankedseq.len() as int) =~= rankedseq);
            lemma_sort_desc_props::<SearchHit>(rescored(full, scores@));
        }
        Ok(out)
    }
}

/// Results paired with their caller-supplied replacement scores.
pub open spec fn rescored(results: Seq<SearchHit>, scores: Seq<i64>) -> Seq<(i64, SearchHit)> {
    Seq::new(results.len(), |i: int| (scores[i], results[i]))
}

/// Scored rows read back as hits carrying their pair's score.
pub open spec fn hits_of_pairs(pairs: Seq<(i64, SearchHit)>) -> Seq<SearchHit> {
    pairs.map_values(
        |p: (i64, SearchHit)| SearchHit { score: p.0, id: p.1.id, metadata: p.1.metadata },
    )
}

/// The value of one re-ranking: the rows carrying their new scores, ranked
/// stably by descending score.
pub open spec fn rerank_spec(results: Seq<SearchHit>, scores: Seq<i64>) -> Seq<SearchHit> {
    hits_of_pairs(sort_desc(rescored(results, scores)))
}


/// A search result and its id-only form agree row by row: same length, and
/// at each position the same score and the same id, in the same order. With
/// the contracts of [`VectorIndex::top_n`] and [`VectorIndex::top_n_ids`],
/// which return [`search_spec`] and [`ids_of`] of it for the same inputs,
/// the two calls agree on every row.
pub proof fn lemma_top_n_ids_consistent(hits: Seq<SearchHit>)
    ensures
        ids_of(hits).len() == hits.len(),
        forall|j: int| #![auto] 0 <= j < hits.len() ==> ids_of(hits)[j].0 == hits[j].score,
        forall|j: int| #![auto] 0 <= j < hits.len() ==> ids_of(hits)[j].1 == hits[j].id,
{
}

/// Filter law: every row a search returns names a table record that passed
/// the pre-filter and the post-filter, and carries exactly that record's
/// metric score. A pre-filter therefore restricts the candidate set — no
/// excluded row can appear, whatever its score.
pub proof fn lemma_search_respects_filters(
    recs: Seq<Record>,
    qv: Seq<i64>,
    metric: VectorSimilarityFunction,
    params: SearchParams,
    n: int,
)
    requires
        recs.len() <= usize::MAX,
        0 <= n,
    ensures
        forall|j: int|
            0 <= j < search_spec(recs, qv, metric, params, n).len() ==> exists|i: int|
                {
                    &&& 0 <= i < recs.len()
                    &&& (#[trigger] search_spec(recs, qv, metric, params, n)[j]).id == recs[i].id
                    &&& filter_ok(recs[i], params.pre_filter)
                    &&& filter_ok(recs[i], params.post_filter)
                    &&& search_spec(recs, qv, metric, params, n)[j].score == score_spec(
                        metric,
                        qv,
                        recs[i].vector@,
                    ) as i64
                },
{
    let cands = candidates(recs, qv, metric, params.pre_filter);
    let ranked = sort_desc(cands);
    let cut = cutoff(n, params.limit as int, ranked.len() as int);
    let kept = ranked.take(cut).filter(post_keeps(recs, params.post_filter));
    let hits = search_spec(recs, qv, metric, params, n);
    lemma_cand_prefix_elems(recs, qv, metric, params.pre_filter, recs.len() as int);
    lemma_sort_desc_props::<usize>(cands);
    assert(sorted_desc(ranked.take(cut)));
    lemma_filter_sorted(ranked.take(cut), post_keeps(recs, params.post_filter));
    assert forall|j: int| 0 <= j < hits.len() implies exists|i: int|
        {
            &&& 0 <= i < recs.len()
            &&& (#[trigger] hits[j]).id == recs[i].id
            &&& filter_ok(recs[i], params.pre_filter)
            &&& filter_ok(recs[i], params.post_filter)
            &&& hits[j].score == score_spec(metric, qv, recs[i].vector@) as i64
        } by {
        let p = kept[j];
        assert(hits[j].id == recs[p.1 as int].id && hits[j].score == p.0);
        ranked.take(cut).lemma_filter_pred(post_keeps(recs, params.post_filter), j);
        let m = choose|m: int| 0 <= m < ranked.take(cut).len() && ranked.take(cut)[m] == p;
        assert(ranked.take(cut)[m] == ranked[m]);
        assert(ranked[m] == p);
        let c = choose|c: int| 0 <= c < cands.len() && cands[c] == p;
        assert(0 <= p.1 < recs.len() && filter_ok(recs[p.1 as int], params.pre_filter) && p.0
            == score_spec(metric, qv, recs[p.1 as int].vector@) as i64);
        assert(filter_ok(recs[p.1 as int], params.post_filter));
    }
}

} // verus!
