//! Small dense matrices over saturating fixed-point values.
//!
//! A matrix of order `n` (at most 4) is a row-major `Vec<i64>` of length
//! `n * n`; a vector is a `Vec<i64>` of length `n`. Each operation's
//! contract gives every entry of the result by a spec-level formula, so
//! the covariance algebra of the filters is fixed exactly.

use vstd::prelude::*;

use crate::fixed::{fadd64, fmul64, favg64, fp_add, fp_avg, fp_mul};

verus! {

/// Largest state dimension the filter suite uses.
pub const MAX_DIM: usize = 4;

/// Entry `(i, j)` of a row-major order-`n` matrix.
pub open spec fn at2(m: Seq<i64>, n: int, i: int, j: int) -> i64 {
    m[i * n + j]
}

/// Row `i` of a matrix as a vector.
pub open spec fn row_of(m: Seq<i64>, n: int, i: int) -> Seq<i64> {
    Seq::new(n as nat, |j: int| at2(m, n, i, j))
}

/// Column `j` of a matrix as a vector.
pub open spec fn col_of(m: Seq<i64>, n: int, j: int) -> Seq<i64> {
    Seq::new(n as nat, |i: int| at2(m, n, i, j))
}

/// Saturating dot product of the first `k` entries, accumulated left to
/// right exactly as the executable loop does.
pub open spec fn dot64(a: Seq<i64>, b: Seq<i64>, k: int) -> i64
    decreases k,
{
    if k <= 0 {
        0i64
    } else {
        fadd64(dot64(a, b, k - 1), fmul64(a[k - 1], b[k - 1]))
    }
}

/// Entry `(i, j)` of the product of two order-`n` matrices.
pub open spec fn mm_entry(a: Seq<i64>, b: Seq<i64>, n: int, i: int, j: int) -> i64 {
    dot64(row_of(a, n, i), col_of(b, n, j), n)
}

/// The row-major matrix whose entry `(i, j)` is `f(i, j)`.
pub open spec fn seq2(n: int, f: spec_fn(int, int) -> i64) -> Seq<i64> {
    Seq::new((n * n) as nat, |k: int| f(k / n, k % n))
}

/// Matrix product as a whole sequence.
pub open spec fn mul_seq(a: Seq<i64>, b: Seq<i64>, n: int) -> Seq<i64> {
    seq2(n, |i: int, j: int| mm_entry(a, b, n, i, j))
}

/// Transpose as a whole sequence.
pub open spec fn transpose_seq(m: Seq<i64>, n: int) -> Seq<i64> {
    seq2(n, |i: int, j: int| at2(m, n, j, i))
}

/// Entrywise saturating sum as a whole sequence.
pub open spec fn add_seq(a: Seq<i64>, b: Seq<i64>, n: int) -> Seq<i64> {
    Seq::new((n * n) as nat, |k: int| fadd64(a[k], b[k]))
}

/// Symmetric part as a whole sequence.
pub open spec fn sym_seq(m: Seq<i64>, n: int) -> Seq<i64> {
    seq2(n, |i: int, j: int| favg64(at2(m, n, i, j), at2(m, n, j, i)))
}

/// A flat index splits uniquely into a row and a column.
pub proof fn lemma_flat_index(n: int, k: int)
    by (nonlinear_arith)
    requires
        0 < n,
        0 <= k < n * n,
    ensures
        0 <= k / n < n,
        0 <= k % n < n,
        k == (k / n) * n + k % n,
{
}

/// Index bookkeeping for row-major order: lexicographic order of
/// `(i, j)` agrees with the order of the flat index `i * n + j`.
proof fn lemma_rm_index(n: int, i: int, j: int, i2: int, j2: int)
    by (nonlinear_arith)
    requires
        0 < n,
        0 <= j < n,
        0 <= j2 < n,
        0 <= i,
        0 <= i2,
    ensures
        i2 < i ==> i2 * n + j2 < i * n + j,
        (i2 == i && j2 < j) ==> i2 * n + j2 < i * n + j,
        (i2 * n + j2 == i * n + j) ==> (i2 == i && j2 == j),
        0 <= i * n + j,
        0 <= i2 * n + j2,
        i * n + j < (i + 1) * n,
{
}

proof fn lemma_rm_bound(n: int, i: int)
    by (nonlinear_arith)
    requires
        0 <= i < n,
    ensures
        (i + 1) * n <= n * n,
{
}

/// Dot product of row `i` of `a` with the vector `x`.
fn dot_row_vec(a: &Vec<i64>, n: usize, i: usize, x: &Vec<i64>) -> (r: i64)
    requires
        0 < n <= MAX_DIM,
        a.len() == n * n,
        x.len() == n,
        i < n,
    ensures
        r == dot64(row_of(a@, n as int, i as int), x@, n as int),
{
    let mut acc: i64 = 0;
    let mut k: usize = 0;
    while k < n
        invariant
            0 < n <= MAX_DIM,
            a.len() == n * n,
            x.len() == n,
            i < n,
            k <= n,
            acc == dot64(row_of(a@, n as int, i as int), x@, k as int),
        decreases n - k,
    {
        proof {
            lemma_rm_index(n as int, i as int, k as int, i as int, k as int);
            lemma_rm_bound(n as int, i as int);
        }
        let e = fp_mul(a[i * n + k], x[k]);
        acc = fp_add(acc, e);
        k = k + 1;
    }
    acc
}

/// Dot product of row `i` of `a` with column `j` of `b`.
fn dot_row_col(a: &Vec<i64>, b: &Vec<i64>, n: usize, i: usize, j: usize) -> (r: i64)
    requires
        0 < n <= MAX_DIM,
        a.len() == n * n,
        b.len() == n * n,
        i < n,
        j < n,
    ensures
        r == mm_entry(a@, b@, n as int, i as int, j as int),
{
    let mut acc: i64 = 0;
    let mut k: usize = 0;
    while k < n
        invariant
            0 < n <= MAX_DIM,
            a.len() == n * n,
            b.len() == n * n,
            i < n,
            j < n,
            k <= n,
            acc == dot64(row_of(a@, n as int, i as int), col_of(b@, n as int, j as int), k as int),
        decreases n - k,
    {
        proof {
            lemma_rm_index(n as int, i as int, k as int, i as int, k as int);
            lemma_rm_bound(n as int, i as int);
            lemma_rm_index(n as int, k as int, j as int, k as int, j as int);
            lemma_rm_bound(n as int, k as int);
        }
        let e = fp_mul(a[i * n + k], b[k * n + j]);
        acc = fp_add(acc, e);
        k = k + 1;
    }
    acc
}

/// Saturating dot product of two vectors.
pub fn dot_vec(a: &Vec<i64>, b: &Vec<i64>, n: usize) -> (r: i64)
    requires
        0 < n <= MAX_DIM,
        a.len() == n,
        b.len() == n,
    ensures
        r == dot64(a@, b@, n as int),
{
    let mut acc: i64 = 0;
    let mut k: usize = 0;
    while k < n
        invariant
            0 < n <= MAX_DIM,
            a.len() == n,
            b.len() == n,
            k <= n,
            acc == dot64(a@, b@, k as int),
        decreases n - k,
    {
        let e = fp_mul(a[k], b[k]);
        acc = fp_add(acc, e);
        k = k + 1;
    }
    acc
}

/// Matrix-vector product `m x`.
pub fn mat_vec_mul(m: &Vec<i64>, x: &Vec<i64>, n: usize) -> (r: Vec<i64>)
    requires
        0 < n <= MAX_DIM,
        m.len() == n * n,
        x.len() == n,
    ensures
        r.len() == n,
        forall|i: int| 0 <= i < n
            ==> r@[i] == dot64(row_of(m@, n as int, i), x@, n as int),
{
    let mut r: Vec<i64> = Vec::new();
    let mut i: usize = 0;
    while i < n
        invariant
            0 < n <= MAX_DIM,
            m.len() == n * n,
            x.len() == n,
            i <= n,
            r.len() == i,
            forall|i2: int| 0 <= i2 < i
                ==> r@[i2] == dot64(row_of(m@, n as int, i2), x@, n as int),
        decreases n - i,
    {
        let v = dot_row_vec(m, n, i, x);
        r.push(v);
        i = i + 1;
    }
    r
}

/// Matrix product `a b`.
pub fn mat_mul(a: &Vec<i64>, b: &Vec<i64>, n: usize) -> (r: Vec<i64>)
    requires
        0 < n <= MAX_DIM,
        a.len() == n * n,
        b.len() == n * n,
    ensures
        r.len() == n * n,
        forall|i: int, j: int| 0 <= i < n && 0 <= j < n
            ==> at2(r@, n as int, i, j) == mm_entry(a@, b@, n as int, i, j),
{
    let mut r: Vec<i64> = Vec::new();
    let mut i: usize = 0;
    while i < n
        invariant
            0 < n <= MAX_DIM,
            a.len() == n * n,
            b.len() == n * n,
            i <= n,
            r.len() == i * n,
            forall|i2: int, j2: int| 0 <= i2 < i && 0 <= j2 < n
                ==> at2(r@, n as int, i2, j2) == mm_entry(a@, b@, n as int, i2, j2),
        decreases n - i,
    {
        let mut j: usize = 0;
        while j < n
            invariant
                0 < n <= MAX_DIM,
                a.len() == n * n,
                b.len() == n * n,
                i < n,
                j <= n,
                r.len() == i * n + j,
                forall|i2: int, j2: int| 0 <= i2 < i && 0 <= j2 < n
                    ==> at2(r@, n as int, i2, j2) == mm_entry(a@, b@, n as int, i2, j2),
                forall|j2: int| 0 <= j2 < j
                    ==> at2(r@, n as int, i as int, j2) == mm_entry(a@, b@, n as int, i as int, j2),
            decreases n - j,
        {
            let v = dot_row_col(a, b, n, i, j);
            let ghost prev = r@;
            r.push(v);
            proof {
                assert forall|i2: int, j2: int|
                    0 <= i2 < n && 0 <= j2 < n && (i2 < i || (i2 == i && j2 < j + 1))
                    implies at2(r@, n as int, i2, j2)
                        == mm_entry(a@, b@, n as int, i2, j2) by {
                    lemma_rm_index(n as int, i as int, j as int, i2, j2);
                    if i2 == i as int && j2 == j as int {
                        assert(at2(r@, n as int, i2, j2) == v);
                    } else {
                        assert(at2(r@, n as int, i2, j2) == prev[i2 * n + j2]);
                        assert(at2(prev, n as int, i2, j2)
                            == mm_entry(a@, b@, n as int, i2, j2));
                    }
                }
            }
            j = j + 1;
        }
        i = i + 1;
        proof {
            assert(i * n == (i - 1) * n + n) by (nonlinear_arith);
        }
    }
    proof {
        assert(n * n == (n - 1) * n + n) by (nonlinear_arith)
            requires n >= 1;
    }
    r
}

/// Transpose.
pub fn mat_transpose(m: &Vec<i64>, n: usize) -> (r: Vec<i64>)
    requires
        0 < n <= MAX_DIM,
        m.len() == n * n,
    ensures
        r.len() == n * n,
        forall|i: int, j: int| 0 <= i < n && 0 <= j < n
            ==> at2(r@, n as int, i, j) == at2(m@, n as int, j, i),
{
    let mut r: Vec<i64> = Vec::new();
    let mut i: usize = 0;
    while i < n
        invariant
            0 < n <= MAX_DIM,
            m.len() == n * n,
            i <= n,
            r.len() == i * n,
            forall|i2: int, j2: int| 0 <= i2 < i && 0 <= j2 < n
                ==> at2(r@, n as int, i2, j2) == at2(m@, n as int, j2, i2),
        decreases n - i,
    {
        let mut j: usize = 0;
        while j < n
            invariant
                0 < n <= MAX_DIM,
                m.len() == n * n,
                i < n,
                j <= n,
                r.len() == i * n + j,
                forall|i2: int, j2: int| 0 <= i2 < i && 0 <= j2 < n
                    ==> at2(r@, n as int, i2, j2) == at2(m@, n as int, j2, i2),
                forall|j2: int| 0 <= j2 < j
                    ==> at2(r@, n as int, i as int, j2) == at2(m@, n as int, j2, i as int),
            decreases n - j,
        {
            proof {
                lemma_rm_index(n as int, j as int, i as int, j as int, i as int);
                lemma_rm_bound(n as int, j as int);
            }
            let v = m[j * n + i];
            r.push(v);
            proof {
                assert forall|i2: int, j2: int|
                    0 <= i2 < n && 0 <= j2 < n && (i2 < i || (i2 == i && j2 < j + 1))
                    implies at2(r@, n as int, i2, j2)
                        == at2(m@, n as int, j2, i2) by {
                    lemma_rm_index(n as int, i as int, j as int, i2, j2);
                }
            }
            j = j + 1;
        }
        i = i + 1;
        proof {
            assert(i * n == (i - 1) * n + n) by (nonlinear_arith);
        }
    }
    proof {
        assert(n * n == (n - 1) * n + n) by (nonlinear_arith)
            requires n >= 1;
    }
    r
}

/// Entrywise saturating sum.
pub fn mat_add(a: &Vec<i64>, b: &Vec<i64>, n: usize) -> (r: Vec<i64>)
    requires
        0 < n <= MAX_DIM,
        a.len() == n * n,
        b.len() == n * n,
    ensures
        r.len() == n * n,
        forall|k: int| 0 <= k < n * n ==> r@[k] == fadd64(a@[k], b@[k]),
{
    let len = n * n;
    let mut r: Vec<i64> = Vec::new();
    let mut k: usize = 0;
    while k < len
        invariant
            len == n * n,
            a.len() == len,
            b.len() == len,
            k <= len,
            r.len() == k,
            forall|k2: int| 0 <= k2 < k ==> r@[k2] == fadd64(a@[k2], b@[k2]),
        decreases len - k,
    {
        let v = fp_add(a[k], b[k]);
        r.push(v);
        k = k + 1;
    }
    r
}

/// Symmetric part: entry `(i, j)` becomes the midpoint of `(i, j)` and
/// `(j, i)`. The result is symmetric whatever the input was.
pub fn mat_symmetrize(m: &Vec<i64>, n: usize) -> (r: Vec<i64>)
    requires
        0 < n <= MAX_DIM,
        m.len() == n * n,
    ensures
        r.len() == n * n,
        forall|i: int, j: int| 0 <= i < n && 0 <= j < n
            ==> at2(r@, n as int, i, j)
                == favg64(at2(m@, n as int, i, j), at2(m@, n as int, j, i)),
        forall|i: int, j: int| 0 <= i < n && 0 <= j < n
            ==> at2(r@, n as int, i, j) == at2(r@, n as int, j, i),
{
    let mut r: Vec<i64> = Vec::new();
    let mut i: usize = 0;
    while i < n
        invariant
            0 < n <= MAX_DIM,
            m.len() == n * n,
            i <= n,
            r.len() == i * n,
            forall|i2: int, j2: int| 0 <= i2 < i && 0 <= j2 < n
                ==> at2(r@, n as int, i2, j2)
                    == favg64(at2(m@, n as int, i2, j2), at2(m@, n as int, j2, i2)),
        decreases n - i,
    {
        let mut j: usize = 0;
        while j < n
            invariant
                0 < n <= MAX_DIM,
                m.len() == n * n,
                i < n,
                j <= n,
                r.len() == i * n + j,
                forall|i2: int, j2: int| 0 <= i2 < i && 0 <= j2 < n
                    ==> at2(r@, n as int, i2, j2)
                        == favg64(at2(m@, n as int, i2, j2), at2(m@, n as int, j2, i2)),
                forall|j2: int| 0 <= j2 < j
                    ==> at2(r@, n as int, i as int, j2)
                        == favg64(at2(m@, n as int, i as int, j2), at2(m@, n as int, j2, i as int)),
            decreases n - j,
        {
            proof {
                lemma_rm_index(n as int, i as int, j as int, i as int, j as int);
                lemma_rm_bound(n as int, i as int);
                lemma_rm_index(n as int, j as int, i as int, j as int, i as int);
                lemma_rm_bound(n as int, j as int);
            }
            let v = fp_avg(m[i * n + j], m[j * n + i]);
            let ghost prev = r@;
            r.push(v);
            proof {
                assert forall|i2: int, j2: int|
                    0 <= i2 < n && 0 <= j2 < n && (i2 < i || (i2 == i && j2 < j + 1))
                    implies at2(r@, n as int, i2, j2)
                        == favg64(at2(m@, n as int, i2, j2), at2(m@, n as int, j2, i2)) by {
                    lemma_rm_index(n as int, i as int, j as int, i2, j2);
                    if i2 == i as int && j2 == j as int {
                        assert(at2(r@, n as int, i2, j2) == v);
                    } else {
                        assert(at2(r@, n as int, i2, j2) == prev[i2 * n + j2]);
                        assert(at2(prev, n as int, i2, j2)
                            == favg64(at2(m@, n as int, i2, j2), at2(m@, n as int, j2, i2)));
                    }
                }
            }
            j = j + 1;
        }
        i = i + 1;
        proof {
            assert(i * n == (i - 1) * n + n) by (nonlinear_arith);
        }
    }
    proof {
        assert(n * n == (n - 1) * n + n) by (nonlinear_arith)
            requires n >= 1;
    }
    r
}

/// Identity matrix in fixed-point units.
pub fn mat_identity(n: usize) -> (r: Vec<i64>)
    requires
        0 < n <= MAX_DIM,
    ensures
        r.len() == n * n,
        forall|i: int, j: int| 0 <= i < n && 0 <= j < n
            ==> at2(r@, n as int, i, j) == if i == j { 1_000_000i64 } else { 0i64 },
{
    let mut r: Vec<i64> = Vec::new();
    let mut i: usize = 0;
    while i < n
        invariant
            0 < n <= MAX_DIM,
            i <= n,
            r.len() == i * n,
            forall|i2: int, j2: int| 0 <= i2 < i && 0 <= j2 < n
                ==> at2(r@, n as int, i2, j2) == if i2 == j2 { 1_000_000i64 } else { 0i64 },
        decreases n - i,
    {
        let mut j: usize = 0;
        while j < n
            invariant
                0 < n <= MAX_DIM,
                i < n,
                j <= n,
                r.len() == i * n + j,
                forall|i2: int, j2: int| 0 <= i2 < i && 0 <= j2 < n
                    ==> at2(r@, n as int, i2, j2) == if i2 == j2 { 1_000_000i64 } else { 0i64 },
                forall|j2: int| 0 <= j2 < j
                    ==> at2(r@, n as int, i as int, j2)
                        == if i as int == j2 { 1_000_000i64 } else { 0i64 },
            decreases n - j,
        {
            let v: i64 = if i == j {
                1_000_000
            } else {
                0
            };
            let ghost prev = r@;
            r.push(v);
            proof {
                assert forall|i2: int, j2: int|
                    0 <= i2 < n && 0 <= j2 < n && (i2 < i || (i2 == i && j2 < j + 1))
                    implies at2(r@, n as int, i2, j2)
                        == if i2 == j2 { 1_000_000i64 } else { 0i64 } by {
                    lemma_rm_index(n as int, i as int, j as int, i2, j2);
                    assert(r@ == prev.push(v));
                    if i2 == i as int && j2 == j as int {
                        assert(prev.len() == i * n + j);
                        assert(at2(r@, n as int, i2, j2) == v);
                    } else {
                        assert(i2 * n + j2 < i * n + j);
                        assert(at2(r@, n as int, i2, j2) == prev[i2 * n + j2]);
                        assert(at2(prev, n as int, i2, j2)
                            == if i2 == j2 { 1_000_000i64 } else { 0i64 });
                    }
                }
            }
            j = j + 1;
        }
        i = i + 1;
        proof {
            assert(i * n == (i - 1) * n + n) by (nonlinear_arith);
        }
    }
    proof {
        assert(n * n == (n - 1) * n + n) by (nonlinear_arith)
            requires n >= 1;
    }
    r
}

/// Scaled identity: `c` on the diagonal, zero elsewhere.
pub fn mat_diag(n: usize, c: i64) -> (r: Vec<i64>)
    requires
        0 < n <= MAX_DIM,
    ensures
        r.len() == n * n,
        forall|i: int, j: int| 0 <= i < n && 0 <= j < n
            ==> at2(r@, n as int, i, j) == if i == j { c } else { 0i64 },
{
    let mut r: Vec<i64> = Vec::new();
    let mut i: usize = 0;
    while i < n
        invariant
            0 < n <= MAX_DIM,
            i <= n,
            r.len() == i * n,
            forall|i2: int, j2: int| 0 <= i2 < i && 0 <= j2 < n
                ==> at2(r@, n as int, i2, j2) == if i2 == j2 { c } else { 0i64 },
        decreases n - i,
    {
        let mut j: usize = 0;
        while j < n
            invariant
                0 < n <= MAX_DIM,
                i < n,
                j <= n,
                r.len() == i * n + j,
                forall|i2: int, j2: int| 0 <= i2 < i && 0 <= j2 < n
                    ==> at2(r@, n as int, i2, j2) == if i2 == j2 { c } else { 0i64 },
                forall|j2: int| 0 <= j2 < j
                    ==> at2(r@, n as int, i as int, j2) == if i as int == j2 { c } else { 0i64 },
            decreases n - j,
        {
            let v: i64 = if i == j {
                c
            } else {
                0
            };
            let ghost prev = r@;
            r.push(v);
            proof {
                assert forall|i2: int, j2: int|
                    0 <= i2 < n && 0 <= j2 < n && (i2 < i || (i2 == i && j2 < j + 1))
                    implies at2(r@, n as int, i2, j2) == if i2 == j2 { c } else { 0i64 } by {
                    lemma_rm_index(n as int, i as int, j as int, i2, j2);
                    if i2 == i as int && j2 == j as int {
                        assert(at2(r@, n as int, i2, j2) == v);
                    } else {
                        assert(at2(r@, n as int, i2, j2) == prev[i2 * n + j2]);
                        assert(at2(prev, n as int, i2, j2) == if i2 == j2 { c } else { 0i64 });
                    }
                }
            }
            j = j + 1;
        }
        i = i + 1;
        proof {
            assert(i * n == (i - 1) * n + n) by (nonlinear_arith);
        }
    }
    proof {
        assert(n * n == (n - 1) * n + n) by (nonlinear_arith)
            requires n >= 1;
    }
    r
}

} // verus!
