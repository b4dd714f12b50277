use vstd::prelude::*;

use crate::ratio::Ratio;

verus! {

/// Evaluation of one prediction pass: a square class-by-class count table
/// (row = true class, column = predicted class), the per-class accuracies,
/// and the overall accuracy, both as exact rationals.
#[derive(Debug)]
pub struct TrainingEval {
    pub confusion_matrix_dim: usize,
    /// Row-major `dim * dim` table; cell `t * dim + c` counts the examples
    /// whose true class is `t` and whose predicted class is `c`.
    pub confusion_matrix: Vec<usize>,
    pub labels_accuracies: Vec<Ratio>,
    pub accuracy: Ratio,
}

/// Loss plus the train and test evaluations of one reporting point.
#[derive(Debug)]
pub struct Metrics {
    pub loss: Ratio,
    pub train_eval: TrainingEval,
    pub test_eval: TrainingEval,
}

/// How many of the first `upto` examples have true class `t` and predicted
/// class `c`.
pub open spec fn pair_count(actual: Seq<usize>, predicted: Seq<usize>, t: int, c: int, upto: int) -> int
    decreases upto,
{
    if upto <= 0 {
        0
    } else {
        pair_count(actual, predicted, t, c, upto - 1)
            + if actual[upto - 1] == t && predicted[upto - 1] == c { 1int } else { 0int }
    }
}

/// How many of the first `upto` examples are predicted correctly.
pub open spec fn match_count(actual: Seq<usize>, predicted: Seq<usize>, upto: int) -> int
    decreases upto,
{
    if upto <= 0 {
        0
    } else {
        match_count(actual, predicted, upto - 1)
            + if actual[upto - 1] == predicted[upto - 1] { 1int } else { 0int }
    }
}

/// How many of the first `upto` examples have true class `t`.
pub open spec fn class_count(actual: Seq<usize>, t: int, upto: int) -> int
    decreases upto,
{
    if upto <= 0 {
        0
    } else {
        class_count(actual, t, upto - 1) + if actual[upto - 1] == t { 1int } else { 0int }
    }
}

/// Sum of the first `upto` entries of `s`.
pub open spec fn sum_prefix(s: Seq<usize>, upto: int) -> int
    decreases upto,
{
    if upto <= 0 {
        0
    } else {
        sum_prefix(s, upto - 1) + s[upto - 1]
    }
}

/// Sum of the first `upto` diagonal cells of a row-major `dim * dim` table.
pub open spec fn trace_sum(cm: Seq<usize>, dim: int, upto: int) -> int
    decreases upto,
{
    if upto <= 0 {
        0
    } else {
        trace_sum(cm, dim, upto - 1) + cm[(upto - 1) * dim + (upto - 1)]
    }
}

/// Sum of the first `upto` cells of row `t` of a row-major `dim * dim` table.
pub open spec fn row_sum(cm: Seq<usize>, dim: int, t: int, upto: int) -> int
    decreases upto,
{
    if upto <= 0 {
        0
    } else {
        row_sum(cm, dim, t, upto - 1) + cm[t * dim + (upto - 1)]
    }
}

proof fn lemma_pair_count_bounds(actual: Seq<usize>, predicted: Seq<usize>, t: int, c: int, upto: int)
    requires
        0 <= upto,
    ensures
        0 <= pair_count(actual, predicted, t, c, upto) <= upto,
    decreases upto,
{
    if upto > 0 {
        lemma_pair_count_bounds(actual, predicted, t, c, upto - 1);
    }
}

proof fn lemma_class_count_bounds(actual: Seq<usize>, t: int, upto: int)
    requires
        0 <= upto,
    ensures
        0 <= class_count(actual, t, upto) <= upto,
    decreases upto,
{
    if upto > 0 {
        lemma_class_count_bounds(actual, t, upto - 1);
    }
}

proof fn lemma_match_count_bounds(actual: Seq<usize>, predicted: Seq<usize>, upto: int)
    requires
        0 <= upto,
    ensures
        0 <= match_count(actual, predicted, upto) <= upto,
    decreases upto,
{
    if upto > 0 {
        lemma_match_count_bounds(actual, predicted, upto - 1);
    }
}

proof fn lemma_sum_prefix_zero(s: Seq<usize>, upto: int)
    requires
        0 <= upto <= s.len(),
        forall|k: int| 0 <= k < upto ==> s[k] == 0,
    ensures
        sum_prefix(s, upto) == 0,
    decreases upto,
{
    if upto > 0 {
        lemma_sum_prefix_zero(s, upto - 1);
    }
}

/// Updating one entry below `upto` shifts the prefix sum by the difference.
proof fn lemma_sum_prefix_update(s: Seq<usize>, i: int, v: usize, upto: int)
    requires
        0 <= i < s.len(),
        0 <= upto <= s.len(),
    ensures
        sum_prefix(s.update(i, v), upto) == sum_prefix(s, upto)
            + if i < upto { v - s[i] } else { 0int },
    decreases upto,
{
    if upto > 0 {
        lemma_sum_prefix_update(s, i, v, upto - 1);
        if i == upto - 1 {
            assert(s.update(i, v)[upto - 1] == v);
        } else {
            assert(s.update(i, v)[upto - 1] == s[upto - 1]);
        }
    }
}

/// Row sums over a table of non-negative cells grow with the prefix length.
proof fn lemma_row_sum_mono(cm: Seq<usize>, dim: int, t: int, c1: int, c2: int)
    requires
        0 <= c1 <= c2,
    ensures
        row_sum(cm, dim, t, c1) <= row_sum(cm, dim, t, c2),
    decreases c2 - c1,
{
    if c1 < c2 {
        lemma_row_sum_mono(cm, dim, t, c1, c2 - 1);
    }
}

/// Partial sum over columns of `pair_count`, used to tie row sums of the
/// confusion matrix to `class_count`.
spec fn row_pair_sum(actual: Seq<usize>, predicted: Seq<usize>, t: int, upto_c: int, n: int) -> int
    decreases upto_c,
{
    if upto_c <= 0 {
        0
    } else {
        row_pair_sum(actual, predicted, t, upto_c - 1, n)
            + pair_count(actual, predicted, t, upto_c - 1, n)
    }
}

/// Partial sum over the diagonal of `pair_count`, used to tie the trace of
/// the confusion matrix to `match_count`.
spec fn diag_pair_sum(actual: Seq<usize>, predicted: Seq<usize>, upto_t: int, n: int) -> int
    decreases upto_t,
{
    if upto_t <= 0 {
        0
    } else {
        diag_pair_sum(actual, predicted, upto_t - 1, n)
            + pair_count(actual, predicted, upto_t - 1, upto_t - 1, n)
    }
}

proof fn lemma_row_pair_sum_zero(actual: Seq<usize>, predicted: Seq<usize>, t: int, upto_c: int)
    requires
        0 <= upto_c,
    ensures
        row_pair_sum(actual, predicted, t, upto_c, 0) == 0,
    decreases upto_c,
{
    if upto_c > 0 {
        lemma_row_pair_sum_zero(actual, predicted, t, upto_c - 1);
    }
}

proof fn lemma_diag_pair_sum_zero(actual: Seq<usize>, predicted: Seq<usize>, upto_t: int)
    requires
        0 <= upto_t,
    ensures
        diag_pair_sum(actual, predicted, upto_t, 0) == 0,
    decreases upto_t,
{
    if upto_t > 0 {
        lemma_diag_pair_sum_zero(actual, predicted, upto_t - 1);
    }
}

proof fn lemma_row_pair_sum_step(actual: Seq<usize>, predicted: Seq<usize>, t: int, upto_c: int, j: int)
    requires
        0 <= j < actual.len(),
        actual.len() == predicted.len(),
        0 <= upto_c,
    ensures
        row_pair_sum(actual, predicted, t, upto_c, j + 1) == row_pair_sum(actual, predicted, t, upto_c, j)
            + if actual[j] == t && predicted[j] < upto_c { 1int } else { 0int },
    decreases upto_c,
{
    if upto_c > 0 {
        lemma_row_pair_sum_step(actual, predicted, t, upto_c - 1, j);
    }
}

/// Summing `pair_count` over every column yields the count of class `t`.
proof fn lemma_row_pair_sum_all(actual: Seq<usize>, predicted: Seq<usize>, t: int, dim: int, j: int)
    requires
        dim >= 0,
        0 <= j <= actual.len(),
        actual.len() == predicted.len(),
        forall|k: int| 0 <= k < actual.len() ==> predicted[k] < dim,
    ensures
        row_pair_sum(actual, predicted, t, dim, j) == class_count(actual, t, j),
    decreases j,
{
    if j > 0 {
        lemma_row_pair_sum_all(actual, predicted, t, dim, j - 1);
        lemma_row_pair_sum_step(actual, predicted, t, dim, j - 1);
        assert(predicted[j - 1] < dim);
        assert(class_count(actual, t, j)
            == class_count(actual, t, j - 1) + if actual[j - 1] == t { 1int } else { 0int });
    } else {
        lemma_row_pair_sum_zero(actual, predicted, t, dim);
    }
}

proof fn lemma_diag_pair_sum_step(actual: Seq<usize>, predicted: Seq<usize>, upto_t: int, j: int)
    requires
        0 <= j < actual.len(),
        actual.len() == predicted.len(),
        0 <= upto_t,
    ensures
        diag_pair_sum(actual, predicted, upto_t, j + 1) == diag_pair_sum(actual, predicted, upto_t, j)
            + if actual[j] == predicted[j] && actual[j] < upto_t { 1int } else { 0int },
    decreases upto_t,
{
    if upto_t > 0 {
        lemma_diag_pair_sum_step(actual, predicted, upto_t - 1, j);
    }
}

/// Summing `pair_count` over the whole diagonal yields the match count.
proof fn lemma_diag_pair_sum_all(actual: Seq<usize>, predicted: Seq<usize>, dim: int, j: int)
    requires
        dim >= 0,
        0 <= j <= actual.len(),
        actual.len() == predicted.len(),
        forall|k: int| 0 <= k < actual.len() ==> actual[k] < dim,
    ensures
        diag_pair_sum(actual, predicted, dim, j) == match_count(actual, predicted, j),
    decreases j,
{
    if j > 0 {
        lemma_diag_pair_sum_all(actual, predicted, dim, j - 1);
        lemma_diag_pair_sum_step(actual, predicted, dim, j - 1);
        assert(actual[j - 1] < dim);
        assert(match_count(actual, predicted, j)
            == match_count(actual, predicted, j - 1)
                + if actual[j - 1] == predicted[j - 1] { 1int } else { 0int });
    } else {
        lemma_diag_pair_sum_zero(actual, predicted, dim);
    }
}

/// The trace of a table whose cells are the pair counts equals the sum of the
/// diagonal pair counts.
proof fn lemma_trace_is_diag_pair_sum(actual: Seq<usize>, predicted: Seq<usize>, cm: Seq<usize>, dim: int, upto: int, n: int)
    requires
        dim >= 1,
        0 <= upto <= dim,
        cm.len() == dim * dim,
        forall|t: int, c: int| 0 <= t < dim && 0 <= c < dim
            ==> cm[t * dim + c] == #[trigger] pair_count(actual, predicted, t, c, n),
    ensures
        trace_sum(cm, dim, upto) == diag_pair_sum(actual, predicted, upto, n),
    decreases upto,
{
    if upto > 0 {
        lemma_trace_is_diag_pair_sum(actual, predicted, cm, dim, upto - 1, n);
        assert(pair_count(actual, predicted, upto - 1, upto - 1, n) == cm[(upto - 1) * dim + (upto - 1)]);
    }
}

/// A row of a table whose cells are the pair counts sums to the pair-count
/// row sum.
proof fn lemma_row_is_row_pair_sum(actual: Seq<usize>, predicted: Seq<usize>, cm: Seq<usize>, dim: int, t: int, upto: int, n: int)
    requires
        dim >= 1,
        0 <= t < dim,
        0 <= upto <= dim,
        cm.len() == dim * dim,
        forall|t2: int, c: int| 0 <= t2 < dim && 0 <= c < dim
            ==> cm[t2 * dim + c] == #[trigger] pair_count(actual, predicted, t2, c, n),
    ensures
        row_sum(cm, dim, t, upto) == row_pair_sum(actual, predicted, t, upto, n),
    decreases upto,
{
    if upto > 0 {
        lemma_row_is_row_pair_sum(actual, predicted, cm, dim, t, upto - 1, n);
        assert(pair_count(actual, predicted, t, upto - 1, n) == cm[t * dim + (upto - 1)]);
    }
}

/// Distinct in-range cells have distinct flat indices.
proof fn lemma_flat_index_injective(t1: int, c1: int, t2: int, c2: int, dim: int)
    requires
        dim >= 1,
        0 <= t1 < dim,
        0 <= c1 < dim,
        0 <= t2 < dim,
        0 <= c2 < dim,
        t1 * dim + c1 == t2 * dim + c2,
    ensures
        t1 == t2 && c1 == c2,
{
    assert(t1 == t2 && c1 == c2) by (nonlinear_arith)
        requires
            dim >= 1,
            0 <= t1 < dim,
            0 <= c1 < dim,
            0 <= t2 < dim,
            0 <= c2 < dim,
            t1 * dim + c1 == t2 * dim + c2,
    ;
}

proof fn lemma_flat_index_in_range(t: int, c: int, dim: int)
    requires
        dim >= 1,
        0 <= t < dim,
        0 <= c < dim,
    ensures
        0 <= t * dim + c < dim * dim,
        t * dim + c <= dim * dim - 1,
    {
    assert(0 <= t * dim + c < dim * dim) by (nonlinear_arith)
        requires
            dim >= 1,
            0 <= t < dim,
            0 <= c < dim,
    ;
}

/// Builds the confusion matrix of one evaluation: a row-major `dim * dim`
/// count table whose cell `t * dim + c` holds exactly the number of examples
/// with true class `t` and predicted class `c`; the cells sum to the number
/// of examples.
pub fn confusion_matrix(actual: &Vec<usize>, predicted: &Vec<usize>, dim: usize) -> (cm: Vec<usize>)
    requires
        actual@.len() == predicted@.len(),
        dim >= 1,
        dim * dim <= usize::MAX,
        forall|j: int| 0 <= j < actual@.len() ==> actual@[j] < dim,
        forall|j: int| 0 <= j < predicted@.len() ==> predicted@[j] < dim,
    ensures
        cm@.len() == dim * dim,
        forall|t: int, c: int| 0 <= t < dim && 0 <= c < dim
            ==> cm@[t * dim + c] == #[trigger] pair_count(actual@, predicted@, t, c, actual@.len() as int),
        sum_prefix(cm@, (dim * dim) as int) == actual@.len(),
{
    let m: usize = dim * dim;
    let mut cm: Vec<usize> = Vec::new();
    let mut k: usize = 0;
    while k < m
        invariant
            k <= m,
            cm@.len() == k,
            forall|j: int| 0 <= j < k ==> cm@[j] == 0,
        decreases m - k,
    {
        cm.push(0);
        k = k + 1;
    }
    let n: usize = actual.len();

    proof {
        assert forall|t: int, c: int| 0 <= t < dim && 0 <= c < dim
            implies cm@[t * dim + c] == #[trigger] pair_count(actual@, predicted@, t, c, 0)
        by {
            lemma_flat_index_in_range(t, c, dim as int);
        }
        lemma_sum_prefix_zero(cm@, m as int);
    }

    let mut i: usize = 0;
    while i < n
        invariant
            n == actual@.len(),
            actual@.len() == predicted@.len(),
            dim >= 1,
            m == dim * dim,
            m <= usize::MAX,
            i <= n,
            cm@.len() == m,
            forall|j: int| 0 <= j < n ==> actual@[j] < dim,
            forall|j: int| 0 <= j < n ==> predicted@[j] < dim,
            forall|t: int, c: int| 0 <= t < dim && 0 <= c < dim
                ==> cm@[t * dim + c] == #[trigger] pair_count(actual@, predicted@, t, c, i as int),
            sum_prefix(cm@, m as int) == i,
        decreases n - i,
    {
        let t: usize = actual[i];
        let c: usize = predicted[i];
        proof {
            lemma_flat_index_in_range(t as int, c as int, dim as int);
        }
        let idx: usize = t * dim + c;
        proof {
            lemma_pair_count_bounds(actual@, predicted@, t as int, c as int, i as int);
            assert(cm@[idx as int] == pair_count(actual@, predicted@, t as int, c as int, i as int));
        }
        let ghost old_cm = cm@;
        let cur: usize = cm[idx];
        cm[idx] = cur + 1;
        proof {
            lemma_sum_prefix_update(old_cm, idx as int, (cur + 1) as usize, m as int);
            assert forall|t2: int, c2: int| 0 <= t2 < dim && 0 <= c2 < dim
                implies cm@[t2 * dim + c2] == #[trigger] pair_count(actual@, predicted@, t2, c2, i + 1)
            by {
                lemma_flat_index_in_range(t2, c2, dim as int);
                assert(pair_count(actual@, predicted@, t2, c2, i + 1)
                    == pair_count(actual@, predicted@, t2, c2, i as int)
                        + if actual@[i as int] == t2 && predicted@[i as int] == c2 { 1int } else { 0int });
                if t2 * dim + c2 == idx {
                    lemma_flat_index_injective(t2, c2, t as int, c as int, dim as int);
                    assert(cm@[t2 * dim + c2] == old_cm[t2 * dim + c2] + 1);
                } else {
                    assert(cm@[t2 * dim + c2] == old_cm[t2 * dim + c2]);
                    assert(!(actual@[i as int] == t2 && predicted@[i as int] == c2));
                }
            }
        }
        i = i + 1;
    }
    cm
}

/// Evaluates predictions against true labels: builds the confusion matrix,
/// the exact overall accuracy (matches over total, equal to the trace of the
/// matrix over the total), and the exact per-class accuracies (diagonal cell
/// over row sum, and exactly zero for a class that never occurs).
pub fn evaluate(actual: &Vec<usize>, predicted: &Vec<usize>, num_classes: usize) -> (ev: TrainingEval)
    requires
        actual@.len() == predicted@.len(),
        actual@.len() >= 1,
        actual@.len() <= i64::MAX,
        num_classes >= 1,
        num_classes * num_classes <= usize::MAX,
        forall|j: int| 0 <= j < actual@.len() ==> actual@[j] < num_classes,
        forall|j: int| 0 <= j < predicted@.len() ==> predicted@[j] < num_classes,
    ensures
        ev.confusion_matrix_dim == num_classes,
        ev.confusion_matrix@.len() == num_classes * num_classes,
        forall|t: int, c: int| 0 <= t < num_classes && 0 <= c < num_classes
            ==> ev.confusion_matrix@[t * num_classes + c]
                == #[trigger] pair_count(actual@, predicted@, t, c, actual@.len() as int),
        sum_prefix(ev.confusion_matrix@, (num_classes * num_classes) as int) == actual@.len(),
        ev.accuracy.num == match_count(actual@, predicted@, actual@.len() as int),
        ev.accuracy.num == trace_sum(ev.confusion_matrix@, num_classes as int, num_classes as int),
        ev.accuracy.den == actual@.len(),
        ev.labels_accuracies@.len() == num_classes,
        forall|t: int| 0 <= t < num_classes ==> (#[trigger] ev.labels_accuracies@[t]).wf(),
        forall|t: int| 0 <= t < num_classes
            ==> class_count(actual@, t, actual@.len() as int) == 0
                ==> #[trigger] ev.labels_accuracies@[t] == (Ratio { num: 0, den: 1 }),
        forall|t: int| 0 <= t < num_classes
            ==> class_count(actual@, t, actual@.len() as int) > 0
                ==> #[trigger] ev.labels_accuracies@[t] == (Ratio {
                    num: pair_count(actual@, predicted@, t, t, actual@.len() as int) as i64,
                    den: class_count(actual@, t, actual@.len() as int) as u64,
                }),
{
    let n: usize = actual.len();
    let dim: usize = num_classes;
    let cm = confusion_matrix(actual, predicted, dim);

    // Count exact matches.
    let mut hits: usize = 0;
    let mut i: usize = 0;
    while i < n
        invariant
            n == actual@.len(),
            actual@.len() == predicted@.len(),
            i <= n,
            hits == match_count(actual@, predicted@, i as int),
            hits <= i,
        decreases n - i,
    {
        if actual[i] == predicted[i] {
            hits = hits + 1;
        }
        i = i + 1;
    }

    proof {
        lemma_trace_is_diag_pair_sum(actual@, predicted@, cm@, dim as int, dim as int, n as int);
        lemma_diag_pair_sum_all(actual@, predicted@, dim as int, n as int);
    }

    // Per-class accuracies: diagonal cell over row sum.
    let mut accs: Vec<Ratio> = Vec::new();
    let mut t: usize = 0;
    while t < dim
        invariant
            n == actual@.len(),
            actual@.len() == predicted@.len(),
            n >= 1,
            n <= i64::MAX,
            dim >= 1,
            dim * dim <= usize::MAX,
            forall|j: int| 0 <= j < n ==> actual@[j] < dim,
            forall|j: int| 0 <= j < n ==> predicted@[j] < dim,
            cm@.len() == dim * dim,
            forall|t2: int, c2: int| 0 <= t2 < dim && 0 <= c2 < dim
                ==> cm@[t2 * dim + c2] == #[trigger] pair_count(actual@, predicted@, t2, c2, n as int),
            t <= dim,
            accs@.len() == t,
            forall|t2: int| 0 <= t2 < t ==> (#[trigger] accs@[t2]).wf(),
            forall|t2: int| 0 <= t2 < t
                ==> class_count(actual@, t2, n as int) == 0
                    ==> #[trigger] accs@[t2] == (Ratio { num: 0, den: 1 }),
            forall|t2: int| 0 <= t2 < t
                ==> class_count(actual@, t2, n as int) > 0
                    ==> #[trigger] accs@[t2] == (Ratio {
                        num: pair_count(actual@, predicted@, t2, t2, n as int) as i64,
                        den: class_count(actual@, t2, n as int) as u64,
                    }),
        decreases dim - t,
    {
        // Row sum of row t.
        let mut rs: usize = 0;
        let mut c: usize = 0;
        proof {
            lemma_row_is_row_pair_sum(actual@, predicted@, cm@, dim as int, t as int, dim as int, n as int);
            lemma_row_pair_sum_all(actual@, predicted@, t as int, dim as int, n as int);
            lemma_class_count_bounds(actual@, t as int, n as int);
        }
        while c < dim
            invariant
                dim >= 1,
                t < dim,
                c <= dim,
                cm@.len() == dim * dim,
                dim * dim <= usize::MAX,
                rs == row_sum(cm@, dim as int, t as int, c as int),
                row_sum(cm@, dim as int, t as int, dim as int) <= n,
                n <= i64::MAX,
            decreases dim - c,
        {
            proof {
                lemma_flat_index_in_range(t as int, c as int, dim as int);
                lemma_row_sum_mono(cm@, dim as int, t as int, c + 1, dim as int);
            }
            let cell: usize = cm[t * dim + c];
            rs = rs + cell;
            c = c + 1;
        }
        proof {
            lemma_row_is_row_pair_sum(actual@, predicted@, cm@, dim as int, t as int, dim as int, n as int);
            lemma_row_pair_sum_all(actual@, predicted@, t as int, dim as int, n as int);
            lemma_flat_index_in_range(t as int, t as int, dim as int);
            lemma_pair_count_bounds(actual@, predicted@, t as int, t as int, n as int);
        }
        if rs == 0 {
            accs.push(Ratio { num: 0, den: 1 });
        } else {
            let diag: usize = cm[t * dim + t];
            accs.push(Ratio { num: diag as i64, den: rs as u64 });
        }
        t = t + 1;
    }

    proof {
        lemma_match_count_bounds(actual@, predicted@, n as int);
    }
    TrainingEval {
        confusion_matrix_dim: dim,
        confusion_matrix: cm,
        labels_accuracies: accs,
        accuracy: Ratio { num: hits as i64, den: n as u64 },
    }
}

} // verus!
