//! Exact scalar, vector and matrix types used throughout the library.
//!
//! Every scalar is a fraction `num / den` of 128-bit integers with a positive
//! denominator. Vectors and matrices share a single denominator across all of
//! their entries, which keeps sums of entries exact without any growth of the
//! denominator.

use vstd::prelude::*;

verus! {

/// Absolute value of a mathematical integer.
pub open spec fn iabs(x: int) -> int {
    if x < 0 {
        -x
    } else {
        x
    }
}

/// An exact scalar: the fraction `num / den`, with `den > 0`.
#[derive(Clone, Copy, Debug)]
pub struct Rational {
    pub num: i128,
    pub den: i128,
}

/// `r` represents the fraction `n / d` (callers supply `d != 0`).
pub open spec fn rat_is(r: Rational, n: int, d: int) -> bool {
    r.num * d == n * r.den
}

impl Rational {
    /// The representation invariant: a positive denominator.
    pub open spec fn wf(self) -> bool {
        self.den > 0
    }

    /// Both components bounded in magnitude by `b`.
    pub open spec fn bounded(self, b: int) -> bool {
        iabs(self.num as int) <= b && self.den <= b
    }

    pub fn new(num: i128, den: i128) -> (r: Self)
        requires
            den > 0,
        ensures
            r.wf(),
            r.num == num,
            r.den == den,
    {
        Rational { num, den }
    }

    pub fn from_int(n: i128) -> (r: Self)
        ensures
            r.wf(),
            r.num == n,
            r.den == 1,
            rat_is(r, n as int, 1),
    {
        Rational { num: n, den: 1 }
    }

    /// Exact equality of the represented fractions.
    pub fn eq_rat(&self, other: &Rational) -> (b: bool)
        requires
            self.wf(),
            other.wf(),
            iabs(self.num * other.den) <= i128::MAX,
            iabs(other.num * self.den) <= i128::MAX,
        ensures
            b == (self.num * other.den == other.num * self.den),
    {
        self.num * other.den == other.num * self.den
    }

    /// Exact order on the represented fractions (denominators are positive).
    pub fn le_rat(&self, other: &Rational) -> (b: bool)
        requires
            self.wf(),
            other.wf(),
            iabs(self.num * other.den) <= i128::MAX,
            iabs(other.num * self.den) <= i128::MAX,
        ensures
            b == (self.num * other.den <= other.num * self.den),
    {
        self.num * other.den <= other.num * self.den
    }

    /// Absolute value of the represented fraction.
    pub fn abs(&self) -> (r: Self)
        requires
            self.wf(),
            self.num > i128::MIN,
        ensures
            r.wf(),
            r.den == self.den,
            r.num as int == iabs(self.num as int),
    {
        if self.num < 0 {
            Rational { num: -self.num, den: self.den }
        } else {
            *self
        }
    }
}

/// A vector (or point) of exact scalars sharing one denominator:
/// entry `k` is `nums[k] / den`.
#[derive(Clone, Debug)]
pub struct RVec {
    pub nums: Vec<i128>,
    pub den: i128,
}

impl RVec {
    pub open spec fn wf(self) -> bool {
        self.den > 0
    }

    pub open spec fn len(self) -> nat {
        self.nums@.len()
    }

    /// All numerators and the denominator bounded in magnitude by `b`.
    pub open spec fn bounded(self, b: int) -> bool {
        self.den <= b && forall|i: int|
            0 <= i < self.nums@.len() ==> iabs(#[trigger] self.nums@[i] as int) <= b
    }

    /// Entry `k` as a mathematical pair (numerator over this vector's denominator).
    pub open spec fn entry(self, k: int) -> int {
        self.nums@[k] as int
    }

    pub fn new(nums: Vec<i128>, den: i128) -> (r: Self)
        requires
            den > 0,
        ensures
            r.wf(),
            r.nums@ == nums@,
            r.den == den,
    {
        RVec { nums, den }
    }

    /// Entry `k` as a standalone scalar.
    pub fn entry_rat(&self, k: usize) -> (r: Rational)
        requires
            self.wf(),
            k < self.len(),
        ensures
            r.wf(),
            r.num == self.nums@[k as int],
            r.den == self.den,
    {
        Rational { num: self.nums[k], den: self.den }
    }
}

/// A matrix of exact scalars sharing one denominator, stored column-major:
/// entry `(r, c)` is `nums[c * nrows + r] / den`.
#[derive(Clone, Debug)]
pub struct MatR {
    pub nums: Vec<i128>,
    pub den: i128,
    pub nrows: usize,
    pub ncols: usize,
}

/// Numerator of entry `(r, c)` of `m` (column-major layout).
pub open spec fn mat_num(m: MatR, r: int, c: int) -> int {
    m.nums@[c * m.nrows + r] as int
}

impl MatR {
    pub open spec fn wf(self) -> bool {
        &&& self.den > 0
        &&& self.nums@.len() == self.nrows * self.ncols
    }

    pub open spec fn bounded(self, b: int) -> bool {
        self.den <= b && forall|i: int|
            0 <= i < self.nums@.len() ==> iabs(#[trigger] self.nums@[i] as int) <= b
    }

    /// An `nrows x ncols` matrix of exact zeros with denominator 1.
    pub fn zeros(nrows: usize, ncols: usize) -> (r: Self)
        requires
            nrows * ncols <= usize::MAX,
        ensures
            r.wf(),
            r.nrows == nrows,
            r.ncols == ncols,
            r.den == 1,
            forall|i: int| 0 <= i < r.nums@.len() ==> r.nums@[i] == 0,
    {
        let n: usize = nrows * ncols;
        let mut nums: Vec<i128> = Vec::new();
        let mut i: usize = 0;
        while i < n
            invariant
                i <= n,
                nums@.len() == i,
                forall|j: int| 0 <= j < i ==> nums@[j] == 0,
            decreases n - i,
        {
            nums.push(0);
            i = i + 1;
        }
        MatR { nums, den: 1, nrows, ncols }
    }

    /// The entries of column `c`, top to bottom.
    pub fn col(&self, c: usize) -> (r: Vec<i128>)
        requires
            self.wf(),
            c < self.ncols,
        ensures
            r@.len() == self.nrows,
            forall|i: int| 0 <= i < self.nrows ==> #[trigger] r@[i] as int == mat_num(*self, i, c as int),
    {
        let mut r: Vec<i128> = Vec::new();
        let mut i: usize = 0;
        let base = self.nums.len();
        while i < self.nrows
            invariant
                self.wf(),
                c < self.ncols,
                i <= self.nrows,
                r@.len() == i,
                forall|j: int| 0 <= j < i ==> #[trigger] r@[j] as int == mat_num(*self, j, c as int),
            decreases self.nrows - i,
        {
            let nlen = self.nums.len();
            proof {
                lemma_mat_index_range(*self, i as int, c as int);
            }
            r.push(self.nums[c * self.nrows + i]);
            i = i + 1;
        }
        r
    }

    /// The entries of row `r`, left to right.
    pub fn row(&self, r: usize) -> (v: Vec<i128>)
        requires
            self.wf(),
            r < self.nrows,
        ensures
            v@.len() == self.ncols,
            forall|i: int|
                0 <= i < self.ncols ==> #[trigger] v@[i] as int == mat_num(*self, r as int, i),
    {
        let mut v: Vec<i128> = Vec::new();
        let mut i: usize = 0;
        while i < self.ncols
            invariant
                self.wf(),
                r < self.nrows,
                i <= self.ncols,
                v@.len() == i,
                forall|j: int| 0 <= j < i ==> #[trigger] v@[j] as int == mat_num(*self, r as int, j),
            decreases self.ncols - i,
        {
            let nlen = self.nums.len();
            proof {
                lemma_mat_index_range(*self, r as int, i as int);
            }
            v.push(self.nums[i * self.nrows + r]);
            i = i + 1;
        }
        v
    }

    /// Entry `(r, c)` as a standalone scalar.
    pub fn entry_rat(&self, r: usize, c: usize) -> (e: Rational)
        requires
            self.wf(),
            r < self.nrows,
            c < self.ncols,
        ensures
            e.wf(),
            e.num as int == mat_num(*self, r as int, c as int),
            e.den == self.den,
    {
        let n = self.nums.len();
        proof {
            mul_le_mono(c as int, self.ncols - 1, self.nrows as int);
            assert((self.ncols - 1) * self.nrows + self.nrows == self.ncols * self.nrows)
                by (nonlinear_arith);
        }
        Rational { num: self.nums[c * self.nrows + r], den: self.den }
    }
}

/// Column-major index arithmetic: entry `(r, c)` lies inside the backing
/// vector of a well-formed matrix.
pub proof fn lemma_mat_index_range(m: MatR, r: int, c: int)
    requires
        m.wf(),
        0 <= r < m.nrows,
        0 <= c < m.ncols,
    ensures
        0 <= c * m.nrows + r < m.nums@.len(),
        c * m.nrows >= 0,
{
    mul_le_mono(c, m.ncols - 1, m.nrows as int);
    assert((m.ncols - 1) * m.nrows + m.nrows == m.ncols * m.nrows) by (nonlinear_arith);
    assert(c * m.nrows >= 0) by (nonlinear_arith)
        requires
            c >= 0,
            m.nrows >= 0,
    ;
}

/// An entry of a bounded matrix is bounded.
pub proof fn lemma_mat_entry_bounded(m: MatR, r: int, c: int, b: int)
    requires
        m.wf(),
        m.bounded(b),
        0 <= r < m.nrows,
        0 <= c < m.ncols,
    ensures
        iabs(mat_num(m, r, c)) <= b,
{
    lemma_mat_index_range(m, r, c);
}

/// `a * b <= c * b` for `a <= c` and `b >= 0`, specialized for index bounds.
pub proof fn mul_le_mono(a: int, c: int, b: int)
    by (nonlinear_arith)
    requires
        a <= c,
        b >= 0,
    ensures
        a * b <= c * b,
{
}

/// A sequence of machine integers as mathematical integers.
pub open spec fn seq_ints(s: Seq<i128>) -> Seq<int> {
    s.map(|i: int, x: i128| x as int)
}

/// Dot product of the first `n` entries of two integer sequences.
pub open spec fn dot_prefix(a: Seq<int>, b: Seq<int>, n: int) -> int
    decreases n,
{
    if n <= 0 {
        0
    } else {
        dot_prefix(a, b, n - 1) + a[n - 1] * b[n - 1]
    }
}

/// Smallest of the first `n` entries of an integer sequence (for `n >= 1`).
pub open spec fn min_prefix(s: Seq<int>, n: int) -> int
    decreases n,
{
    if n <= 1 {
        s[0]
    } else {
        if s[n - 1] < min_prefix(s, n - 1) {
            s[n - 1]
        } else {
            min_prefix(s, n - 1)
        }
    }
}

/// Largest of the first `n` entries of an integer sequence (for `n >= 1`).
pub open spec fn max_prefix(s: Seq<int>, n: int) -> int
    decreases n,
{
    if n <= 1 {
        s[0]
    } else {
        if s[n - 1] > max_prefix(s, n - 1) {
            s[n - 1]
        } else {
            max_prefix(s, n - 1)
        }
    }
}

/// Sum of the first `n` entries of an integer sequence.
pub open spec fn sum_prefix(a: Seq<int>, n: int) -> int
    decreases n,
{
    if n <= 0 {
        0
    } else {
        sum_prefix(a, n - 1) + a[n - 1]
    }
}

/// A dot product of `n` terms, each bounded by `ba * bb`, is bounded by `n * ba * bb`.
pub proof fn lemma_dot_prefix_bound(a: Seq<int>, b: Seq<int>, n: int, ba: int, bb: int)
    requires
        0 <= n <= a.len(),
        n <= b.len(),
        ba >= 0,
        bb >= 0,
        forall|i: int| 0 <= i < n ==> iabs(#[trigger] a[i]) <= ba,
        forall|i: int| 0 <= i < n ==> iabs(#[trigger] b[i]) <= bb,
    ensures
        iabs(dot_prefix(a, b, n)) <= n * ba * bb,
    decreases n,
{
    if n > 0 {
        lemma_dot_prefix_bound(a, b, n - 1, ba, bb);
        assert(iabs(a[n - 1] * b[n - 1]) <= ba * bb) by (nonlinear_arith)
            requires
                iabs(a[n - 1]) <= ba,
                iabs(b[n - 1]) <= bb,
                ba >= 0,
                bb >= 0,
        ;
        assert((n - 1) * ba * bb + ba * bb == n * ba * bb) by (nonlinear_arith);
    } else {
        assert(0 * ba * bb == 0) by (nonlinear_arith);
    }
}

} // verus!
