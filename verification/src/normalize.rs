use vstd::prelude::*;

verus! {

/// A column-major matrix of raw integer feature readings: examples as
/// columns, features as rows; cell `(r, c)` sits at `c * rows + r`.
#[derive(Debug)]
pub struct FeatureMatrix {
    pub rows: usize,
    pub cols: usize,
    pub data: Vec<i64>,
}

impl FeatureMatrix {
    pub open spec fn wf(self) -> bool {
        self.data@.len() == self.rows * self.cols
    }
}

/// A column-major matrix of exact rationals with one denominator per column:
/// the value of cell `(r, c)` is `nums[c * rows + r] / dens[c]`.
#[derive(Debug)]
pub struct ScaledMatrix {
    pub rows: usize,
    pub cols: usize,
    pub nums: Vec<i64>,
    pub dens: Vec<u64>,
}

impl ScaledMatrix {
    pub open spec fn wf(self) -> bool {
        &&& self.nums@.len() == self.rows * self.cols
        &&& self.dens@.len() == self.cols
        &&& forall|c: int| 0 <= c < self.cols ==> #[trigger] self.dens@[c] > 0
    }
}

/// The flat value at `(r, c)` of column-major data with `rows` rows.
pub open spec fn spec_flat(data: Seq<i64>, rows: int, r: int, c: int) -> int {
    data[c * rows + r] as int
}

pub open spec fn spec_cell(m: FeatureMatrix, r: int, c: int) -> int {
    spec_flat(m.data@, m.rows as int, r, c)
}

/// Minimum of the first `upto` cells of column `c` (defined for `upto >= 1`).
pub open spec fn spec_col_min(m: FeatureMatrix, c: int, upto: int) -> int
    decreases upto,
{
    if upto <= 1 {
        spec_cell(m, 0, c)
    } else {
        let rest = spec_col_min(m, c, upto - 1);
        if spec_cell(m, upto - 1, c) < rest {
            spec_cell(m, upto - 1, c)
        } else {
            rest
        }
    }
}

/// Maximum of the first `upto` cells of column `c` (defined for `upto >= 1`).
pub open spec fn spec_col_max(m: FeatureMatrix, c: int, upto: int) -> int
    decreases upto,
{
    if upto <= 1 {
        spec_cell(m, 0, c)
    } else {
        let rest = spec_col_max(m, c, upto - 1);
        if spec_cell(m, upto - 1, c) > rest {
            spec_cell(m, upto - 1, c)
        } else {
            rest
        }
    }
}

/// A column is left untouched when its maximum is not positive (the
/// documented skip, avoiding a division by zero on all-zero columns) or when
/// it is constant, where the scaling denominator `max - min` would vanish.
pub open spec fn spec_col_skipped(m: FeatureMatrix, c: int) -> bool {
    ||| m.rows == 0
    ||| spec_col_max(m, c, m.rows as int) <= 0
    ||| spec_col_max(m, c, m.rows as int) == spec_col_min(m, c, m.rows as int)
}

/// The denominator normalization gives column `c`.
pub open spec fn spec_col_den(m: FeatureMatrix, c: int) -> int {
    if spec_col_skipped(m, c) {
        1
    } else {
        spec_col_max(m, c, m.rows as int) - spec_col_min(m, c, m.rows as int)
    }
}

/// The numerator normalization gives cell `(r, c)`: `x - min` on a scaled
/// column, the cell itself (over denominator 1) on a skipped column.
pub open spec fn spec_out_num(m: FeatureMatrix, r: int, c: int) -> int {
    if spec_col_skipped(m, c) {
        spec_cell(m, r, c)
    } else {
        spec_cell(m, r, c) - spec_col_min(m, c, m.rows as int)
    }
}

proof fn lemma_col_min_le(m: FeatureMatrix, c: int, upto: int, r: int)
    requires
        0 <= r < upto,
    ensures
        spec_col_min(m, c, upto) <= spec_cell(m, r, c),
    decreases upto,
{
    if upto > 1 && r < upto - 1 {
        lemma_col_min_le(m, c, upto - 1, r);
    }
}

proof fn lemma_col_min_attained(m: FeatureMatrix, c: int, upto: int)
    requires
        upto >= 1,
    ensures
        exists|r: int| 0 <= r < upto && spec_cell(m, r, c) == spec_col_min(m, c, upto),
    decreases upto,
{
    if upto == 1 {
        assert(spec_cell(m, 0, c) == spec_col_min(m, c, 1));
    } else {
        lemma_col_min_attained(m, c, upto - 1);
        if spec_cell(m, upto - 1, c) < spec_col_min(m, c, upto - 1) {
            assert(spec_cell(m, upto - 1, c) == spec_col_min(m, c, upto));
        }
    }
}

proof fn lemma_col_max_ge(m: FeatureMatrix, c: int, upto: int, r: int)
    requires
        0 <= r < upto,
    ensures
        spec_col_max(m, c, upto) >= spec_cell(m, r, c),
    decreases upto,
{
    if upto > 1 && r < upto - 1 {
        lemma_col_max_ge(m, c, upto - 1, r);
    }
}

proof fn lemma_col_max_attained(m: FeatureMatrix, c: int, upto: int)
    requires
        upto >= 1,
    ensures
        exists|r: int| 0 <= r < upto && spec_cell(m, r, c) == spec_col_max(m, c, upto),
    decreases upto,
{
    if upto == 1 {
        assert(spec_cell(m, 0, c) == spec_col_max(m, c, 1));
    } else {
        lemma_col_max_attained(m, c, upto - 1);
        if spec_cell(m, upto - 1, c) > spec_col_max(m, c, upto - 1) {
            assert(spec_cell(m, upto - 1, c) == spec_col_max(m, c, upto));
        }
    }
}

proof fn lemma_colmajor_index(r: int, c: int, rows: int, cols: int)
    requires
        rows >= 1,
        0 <= r < rows,
        0 <= c < cols,
    ensures
        0 <= c * rows,
        c * rows <= rows * cols - rows,
        c * rows + r < rows * cols,
{
    assert(0 <= c * rows && c * rows <= rows * cols - rows && c * rows + r < rows * cols)
        by (nonlinear_arith)
        requires
            rows >= 1,
            0 <= r < rows,
            0 <= c < cols,
    ;
}

/// Min-max normalization: each column with a positive maximum and at least
/// two distinct values is mapped to `(x - min) / (max - min)`, an exact
/// rational in [0,1]; every other column is carried over unchanged (over
/// denominator 1). Bounded cells keep every subtraction exact.
pub fn min_max_normalization(features: &FeatureMatrix) -> (s: ScaledMatrix)
    requires
        features.wf(),
        forall|i: int| 0 <= i < features.data@.len()
            ==> -0x4000_0000_0000_0000 < #[trigger] features.data@[i] < 0x4000_0000_0000_0000,
    ensures
        s.wf(),
        s.rows == features.rows,
        s.cols == features.cols,
        forall|c: int| 0 <= c < features.cols ==> #[trigger] s.dens@[c] == spec_col_den(*features, c),
        forall|r: int, c: int| 0 <= r < features.rows && 0 <= c < features.cols
            ==> #[trigger] spec_flat(s.nums@, features.rows as int, r, c)
                == spec_out_num(*features, r, c),
{
    let rows: usize = features.rows;
    let cols: usize = features.cols;
    let total: usize = features.data.len();
    proof {
        assert(rows * cols == total);
    }
    let mut nums: Vec<i64> = Vec::new();
    let mut dens: Vec<u64> = Vec::new();
    let mut c: usize = 0;
    while c < cols
        invariant
            features.wf(),
            forall|i: int| 0 <= i < features.data@.len()
                ==> -0x4000_0000_0000_0000 < #[trigger] features.data@[i] < 0x4000_0000_0000_0000,
            rows == features.rows,
            cols == features.cols,
            rows * cols <= usize::MAX,
            c <= cols,
            dens@.len() == c,
            nums@.len() == c * rows,
            forall|c2: int| 0 <= c2 < c ==> #[trigger] dens@[c2] == spec_col_den(*features, c2),
            forall|r2: int, c2: int| 0 <= r2 < rows && 0 <= c2 < c
                ==> #[trigger] spec_flat(nums@, rows as int, r2, c2)
                    == spec_out_num(*features, r2, c2),
        decreases cols - c,
    {
        let ghost prev_nums = nums@;
        if rows == 0 {
            dens.push(1);
        } else {
            proof {
                lemma_colmajor_index(0, c as int, rows as int, cols as int);
            }
            let mut mn: i64 = features.data[c * rows];
            let mut mx: i64 = mn;
            let mut r: usize = 1;
            while r < rows
                invariant
                    features.wf(),
                    forall|i: int| 0 <= i < features.data@.len()
                        ==> -0x4000_0000_0000_0000 < #[trigger] features.data@[i]
                            < 0x4000_0000_0000_0000,
                    rows == features.rows,
                    cols == features.cols,
                    rows * cols <= usize::MAX,
                    rows >= 1,
                    c < cols,
                    1 <= r <= rows,
                    mn <= mx,
                    mn == spec_col_min(*features, c as int, r as int),
                    mx == spec_col_max(*features, c as int, r as int),
                    -0x4000_0000_0000_0000 < mn < 0x4000_0000_0000_0000,
                    -0x4000_0000_0000_0000 < mx < 0x4000_0000_0000_0000,
                decreases rows - r,
            {
                proof {
                    lemma_colmajor_index(r as int, c as int, rows as int, cols as int);
                }
                let x: i64 = features.data[c * rows + r];
                if x < mn {
                    mn = x;
                }
                if x > mx {
                    mx = x;
                }
                r = r + 1;
            }
            let skip: bool = !(mx > 0) || mx == mn;
            let den: u64 = if skip {
                1
            } else {
                (mx - mn) as u64
            };
            let mut r2: usize = 0;
            while r2 < rows
                invariant
                    features.wf(),
                    forall|i: int| 0 <= i < features.data@.len()
                        ==> -0x4000_0000_0000_0000 < #[trigger] features.data@[i]
                            < 0x4000_0000_0000_0000,
                    rows == features.rows,
                    cols == features.cols,
                    rows * cols <= usize::MAX,
                    rows >= 1,
                    c < cols,
                    r2 <= rows,
                    mn == spec_col_min(*features, c as int, rows as int),
                    mx == spec_col_max(*features, c as int, rows as int),
                    -0x4000_0000_0000_0000 < mn < 0x4000_0000_0000_0000,
                    skip == spec_col_skipped(*features, c as int),
                    nums@.len() == prev_nums.len() + r2,
                    nums@.len() == c * rows + r2,
                    forall|j: int| 0 <= j < prev_nums.len() ==> #[trigger] nums@[j] == prev_nums[j],
                    forall|r3: int| 0 <= r3 < r2
                        ==> #[trigger] spec_flat(nums@, rows as int, r3, c as int)
                            == spec_out_num(*features, r3, c as int),
                decreases rows - r2,
            {
                proof {
                    lemma_colmajor_index(r2 as int, c as int, rows as int, cols as int);
                    lemma_col_min_le(*features, c as int, rows as int, r2 as int);
                    lemma_col_max_ge(*features, c as int, rows as int, r2 as int);
                }
                let ghost pre_push = nums@;
                let x: i64 = features.data[c * rows + r2];
                if skip {
                    nums.push(x);
                } else {
                    nums.push(x - mn);
                }
                proof {
                    assert forall|r3: int| 0 <= r3 < r2 + 1
                        implies #[trigger] spec_flat(nums@, rows as int, r3, c as int)
                            == spec_out_num(*features, r3, c as int)
                    by {
                        if r3 < r2 {
                            assert(spec_flat(pre_push, rows as int, r3, c as int)
                                == spec_out_num(*features, r3, c as int));
                            assert(nums@[c * rows + r3] == pre_push[c * rows + r3]);
                        }
                    }
                }
                r2 = r2 + 1;
            }
            dens.push(den);
        }
        proof {
            assert((c + 1) * rows == c * rows + rows) by (nonlinear_arith);
            assert forall|r2: int, c2: int| 0 <= r2 < rows && 0 <= c2 < c + 1
                implies #[trigger] spec_flat(nums@, rows as int, r2, c2)
                    == spec_out_num(*features, r2, c2)
            by {
                if c2 == c {
                    assert(spec_flat(nums@, rows as int, r2, c as int)
                        == spec_out_num(*features, r2, c as int));
                } else {
                    lemma_colmajor_index(r2, c2, rows as int, c as int);
                    assert(rows * (c as int) == (c as int) * rows) by (nonlinear_arith);
                    assert(prev_nums.len() == c * rows);
                    assert(c2 * rows + r2 < prev_nums.len());
                    assert(spec_flat(prev_nums, rows as int, r2, c2)
                        == spec_out_num(*features, r2, c2));
                    assert(nums@[c2 * rows + r2] == prev_nums[c2 * rows + r2]);
                }
            }
        }
        c = c + 1;
    }
    proof {
        assert((cols as int) * (rows as int) == (rows as int) * (cols as int)) by (nonlinear_arith);
        assert forall|c2: int| 0 <= c2 < cols implies #[trigger] dens@[c2] > 0 by {
            assert(dens@[c2] == spec_col_den(*features, c2));
        }
    }
    ScaledMatrix { rows, cols, nums, dens }
}

/// Law: on a column that normalization scales (positive maximum, at least two
/// distinct values), every resulting entry lies in [0,1], the column minimum
/// becomes exactly 0 and the column maximum exactly 1; every other column is
/// carried over unchanged by definition of `spec_out_num`.
pub proof fn lemma_normalized_column_range(m: FeatureMatrix, c: int)
    requires
        m.wf(),
        m.rows >= 1,
        0 <= c < m.cols,
        !spec_col_skipped(m, c),
    ensures
        forall|r: int| 0 <= r < m.rows
            ==> 0 <= #[trigger] spec_out_num(m, r, c) <= spec_col_den(m, c),
        exists|r: int| 0 <= r < m.rows && #[trigger] spec_out_num(m, r, c) == 0,
        exists|r: int| 0 <= r < m.rows && #[trigger] spec_out_num(m, r, c) == spec_col_den(m, c),
{
    let rows = m.rows as int;
    assert forall|r: int| 0 <= r < rows
        implies 0 <= #[trigger] spec_out_num(m, r, c) <= spec_col_den(m, c)
    by {
        lemma_col_min_le(m, c, rows, r);
        lemma_col_max_ge(m, c, rows, r);
    }
    lemma_col_min_attained(m, c, rows);
    lemma_col_max_attained(m, c, rows);
    let rmin = choose|r: int| 0 <= r < rows && spec_cell(m, r, c) == spec_col_min(m, c, rows);
    assert(spec_out_num(m, rmin, c) == 0);
    let rmax = choose|r: int| 0 <= r < rows && spec_cell(m, r, c) == spec_col_max(m, c, rows);
    assert(spec_out_num(m, rmax, c) == spec_col_den(m, c));
}

} // verus!
