//! The elliptic operator family: the capability traits that encode a physical
//! law as a pure function of the solution gradient, and the batched
//! contraction accumulation used during assembly.
//!
//! An operator declares its solution dimension and a parameter type (material
//! data, supplied per quadrature point). The contraction variant exposes a
//! batched form that accumulates scaled blockwise contractions into an output
//! matrix; its provided implementation is proved equal to adding each
//! individually scaled single-pair contraction into its block.

use vstd::prelude::*;
use crate::rational::{iabs, dot_prefix, seq_ints, MatR, RVec, Rational, mat_num, mul_le_mono,
    lemma_mat_index_range, lemma_mat_entry_bounded, lemma_dot_prefix_bound};
use crate::element::{mul_bound, mul_pos};
use crate::geometry::dot_i128;

verus! {

/// A small, fixed-size dimension, used as the number of solution components
/// per node (one for scalar fields, more for vector fields).
pub trait SmallDim {
    spec fn dim_spec() -> nat;

    fn dim() -> (n: usize)
        ensures
            n == Self::dim_spec(),
            1 <= n <= 3,
    ;
}

/// The one-dimensional tag (scalar fields).
pub struct Dim1;

/// The two-dimensional tag.
pub struct Dim2;

/// The three-dimensional tag.
pub struct Dim3;

impl SmallDim for Dim1 {
    open spec fn dim_spec() -> nat {
        1
    }

    fn dim() -> usize {
        1
    }
}

impl SmallDim for Dim2 {
    open spec fn dim_spec() -> nat {
        2
    }

    fn dim() -> usize {
        2
    }
}

impl SmallDim for Dim3 {
    open spec fn dim_spec() -> nat {
        3
    }

    fn dim() -> usize {
        3
    }
}

/// Bound on the numerators and denominators of gradients and direction
/// vectors handed to an operator (a machine limit).
pub const OPERATOR_INPUT_LIMIT: i128 = 0x10000000000;

/// Bound guaranteed on the numerators and denominator of a contraction block.
pub const CONTRACTION_VALUE_LIMIT: i128 = 0x400000000000000000000;

/// Bound on the scale factor handed to the batched contraction.
pub const ALPHA_LIMIT: i128 = 0x10000000000;

/// Bound on the entries of the accumulation target of the batched
/// contraction: one more scaled block still fits in an `i128`.
pub const ACCUMULATE_LIMIT: i128 = 0x10000000000000000000000000000000;

/// An operator: a physical law with a solution dimension and per-point
/// material parameters.
pub trait Operator {
    type SolutionDim: SmallDim;

    type Parameters;
}

/// An elliptic operator `g`: maps the solution gradient (a
/// `geometry_dim x solution_dim` matrix) and parameters to an operator value
/// of the same shape.
pub trait EllipticOperator: Operator {
    /// Numerator of entry `(r, c)` of the operator value.
    spec fn elliptic_term_num(
        &self,
        g: Seq<int>,
        gden: int,
        d: int,
        params: &Self::Parameters,
        r: int,
        c: int,
    ) -> int;

    /// Common denominator of the operator value.
    spec fn elliptic_term_den(&self, gden: int, params: &Self::Parameters) -> int;

    /// Evaluate the operator at a gradient. Pure; no side effects.
    fn compute_elliptic_term(&self, gradient: &MatR, data: &Self::Parameters) -> (r: MatR)
        requires
            gradient.wf(),
            gradient.ncols == Self::SolutionDim::dim_spec(),
            1 <= gradient.nrows <= 3,
            gradient.bounded(OPERATOR_INPUT_LIMIT as int),
        ensures
            r.wf(),
            r.nrows == gradient.nrows,
            r.ncols == gradient.ncols,
            r.den == self.elliptic_term_den(gradient.den as int, data),
            forall|rr: int, cc: int|
                0 <= rr < r.nrows && 0 <= cc < r.ncols ==> #[trigger] mat_num(r, rr, cc)
                    == self.elliptic_term_num(
                    seq_ints(gradient.nums@),
                    gradient.den as int,
                    gradient.nrows as int,
                    data,
                    rr,
                    cc,
                ),
            r.bounded(CONTRACTION_VALUE_LIMIT as int),
    ;
}

/// A contraction operator: the bilinear form encoding the derivative of an
/// elliptic operator. For direction vectors `a, b` of geometry dimension it
/// produces a `solution_dim x solution_dim` block.
pub trait EllipticContraction: Operator {
    /// Numerator of entry `(r, c)` of the contraction block for direction
    /// vectors with numerators `a` and `b`.
    spec fn contraction_num(
        &self,
        g: Seq<int>,
        gden: int,
        a: Seq<int>,
        ad: int,
        b: Seq<int>,
        bd: int,
        params: &Self::Parameters,
        r: int,
        c: int,
    ) -> int;

    /// Common denominator of the contraction block.
    spec fn contraction_den(&self, gden: int, ad: int, bd: int, params: &Self::Parameters) -> int;

    /// Compute the single-pair contraction block.
    fn contract(
        &self,
        gradient: &MatR,
        a: &RVec,
        b: &RVec,
        parameters: &Self::Parameters,
    ) -> (r: MatR)
        requires
            gradient.wf(),
            a.wf(),
            b.wf(),
            gradient.ncols == Self::SolutionDim::dim_spec(),
            1 <= gradient.nrows <= 3,
            a.len() == gradient.nrows,
            b.len() == gradient.nrows,
            gradient.bounded(OPERATOR_INPUT_LIMIT as int),
            a.bounded(OPERATOR_INPUT_LIMIT as int),
            b.bounded(OPERATOR_INPUT_LIMIT as int),
        ensures
            r.wf(),
            r.nrows == Self::SolutionDim::dim_spec(),
            r.ncols == Self::SolutionDim::dim_spec(),
            r.den == self.contraction_den(gradient.den as int, a.den as int, b.den as int, parameters),
            forall|rr: int, cc: int|
                0 <= rr < r.nrows && 0 <= cc < r.ncols ==> #[trigger] mat_num(r, rr, cc)
                    == self.contraction_num(
                    seq_ints(gradient.nums@),
                    gradient.den as int,
                    seq_ints(a.nums@),
                    a.den as int,
                    seq_ints(b.nums@),
                    b.den as int,
                    parameters,
                    rr,
                    cc,
                ),
            r.bounded(CONTRACTION_VALUE_LIMIT as int),
    ;

}

/// An energy function associated with an elliptic operator: maps a gradient
/// and parameters to a scalar energy density per unit volume.
pub trait EllipticEnergy: Operator {
    /// Numerator of the energy value.
    spec fn energy_num(&self, g: Seq<int>, gden: int, d: int, params: &Self::Parameters) -> int;

    /// Denominator of the energy value.
    spec fn energy_den(&self, gden: int, params: &Self::Parameters) -> int;

    fn compute_energy(&self, gradient: &MatR, parameters: &Self::Parameters) -> (r: Rational)
        requires
            gradient.wf(),
            gradient.ncols == Self::SolutionDim::dim_spec(),
            1 <= gradient.nrows <= 3,
            gradient.bounded(OPERATOR_INPUT_LIMIT as int),
        ensures
            r.wf(),
            r.den as int == self.energy_den(gradient.den as int, parameters),
            r.num as int == self.energy_num(
                seq_ints(gradient.nums@),
                gradient.den as int,
                gradient.nrows as int,
                parameters,
            ),
    ;
}

/// The Laplace operator: the elliptic operator of Laplace's equation, whose
/// operator value is the gradient itself, whose contraction is the inner
/// product of the direction vectors, and whose energy is half the squared
/// norm of the gradient (the Dirichlet energy).
pub struct LaplaceOperator;

impl Operator for LaplaceOperator {
    type SolutionDim = Dim1;

    type Parameters = ();
}

impl EllipticOperator for LaplaceOperator {
    open spec fn elliptic_term_num(
        &self,
        g: Seq<int>,
        gden: int,
        d: int,
        params: &(),
        r: int,
        c: int,
    ) -> int {
        g[c * d + r]
    }

    open spec fn elliptic_term_den(&self, gden: int, params: &()) -> int {
        gden
    }

    fn compute_elliptic_term(&self, gradient: &MatR, data: &()) -> (r: MatR) {
        let r = MatR {
            nums: gradient.nums.clone(),
            den: gradient.den,
            nrows: gradient.nrows,
            ncols: gradient.ncols,
        };
        proof {
            assert(r.nums@ =~= gradient.nums@);
            assert forall|rr: int, cc: int|
                0 <= rr < r.nrows && 0 <= cc < r.ncols implies #[trigger] mat_num(r, rr, cc)
                == self.elliptic_term_num(
                seq_ints(gradient.nums@),
                gradient.den as int,
                gradient.nrows as int,
                data,
                rr,
                cc,
            ) by {
                lemma_mat_index_range(r, rr, cc);
            }
        }
        r
    }
}

impl EllipticContraction for LaplaceOperator {
    open spec fn contraction_num(
        &self,
        g: Seq<int>,
        gden: int,
        a: Seq<int>,
        ad: int,
        b: Seq<int>,
        bd: int,
        params: &(),
        r: int,
        c: int,
    ) -> int {
        dot_prefix(a, b, a.len() as int)
    }

    open spec fn contraction_den(&self, gden: int, ad: int, bd: int, params: &()) -> int {
        ad * bd
    }

    fn contract(&self, gradient: &MatR, a: &RVec, b: &RVec, parameters: &()) -> (r: MatR) {
        proof {
            assert(32 * ((OPERATOR_INPUT_LIMIT as int) * (OPERATOR_INPUT_LIMIT as int))
                <= i128::MAX);
        }
        let num = dot_i128(&a.nums, &b.nums, OPERATOR_INPUT_LIMIT, OPERATOR_INPUT_LIMIT);
        proof {
            mul_bound(a.den as int, b.den as int, OPERATOR_INPUT_LIMIT as int,
                OPERATOR_INPUT_LIMIT as int);
            mul_pos(a.den as int, b.den as int);
            mul_le_mono(a.nums@.len() as int, 3, (OPERATOR_INPUT_LIMIT as int)
                * (OPERATOR_INPUT_LIMIT as int));
        }
        let mut nums: Vec<i128> = Vec::new();
        nums.push(num);
        let r = MatR { nums, den: a.den * b.den, nrows: 1, ncols: 1 };
        r
    }

}

impl EllipticEnergy for LaplaceOperator {
    open spec fn energy_num(&self, g: Seq<int>, gden: int, d: int, params: &()) -> int {
        dot_prefix(g, g, g.len() as int)
    }

    open spec fn energy_den(&self, gden: int, params: &()) -> int {
        2 * (gden * gden)
    }

    fn compute_energy(&self, gradient: &MatR, parameters: &()) -> (r: Rational) {
        proof {
            assert(32 * ((OPERATOR_INPUT_LIMIT as int) * (OPERATOR_INPUT_LIMIT as int))
                <= i128::MAX);
            assert(gradient.nums@.len() == gradient.nrows * gradient.ncols);
            assert(gradient.nrows * gradient.ncols <= 3) by (nonlinear_arith)
                requires
                    1 <= gradient.nrows <= 3,
                    gradient.ncols == 1,
            ;
        }
        let num = dot_i128(&gradient.nums, &gradient.nums, OPERATOR_INPUT_LIMIT,
            OPERATOR_INPUT_LIMIT);
        proof {
            mul_bound(gradient.den as int, gradient.den as int, OPERATOR_INPUT_LIMIT as int,
                OPERATOR_INPUT_LIMIT as int);
            mul_pos(gradient.den as int, gradient.den as int);
        }
        Rational { num, den: 2 * (gradient.den * gradient.den) }
    }
}

/// Accumulate scaled contractions of stacked direction vectors.
///
/// `a` and `b` are stacks of `M` respectively `N` direction vectors of
/// geometry dimension `d`; for every block index pair `(I, J)` this adds
/// `alpha * contract(gradient, a_I, b_J)` into the `(I, J)` block of
/// `output`, an `(s M) x (s N)` matrix sharing the exact denominator
/// `alpha.den * contraction_den`. The accumulation is a running sum, so
/// repeated calls for different quadrature points or operator terms target
/// the same matrix. The implementation is the direct double loop over block
/// index pairs, calling the single-pair contraction once per block, in
/// column-major (block-major) order to match the storage layout of the
/// target. The inconsistent-dimension cases that the assembler treats as
/// caller bugs are excluded by precondition.
pub fn accumulate_contractions_into<Op: EllipticContraction>(
    op: &Op,
    output: &mut MatR,
    alpha: &Rational,
    gradient: &MatR,
    a: &RVec,
    b: &RVec,
    parameters: &Op::Parameters,
)
    requires
        old(output).wf(),
        alpha.wf(),
        gradient.wf(),
        a.wf(),
        b.wf(),
        gradient.ncols == Op::SolutionDim::dim_spec(),
        1 <= gradient.nrows <= 3,
        a.len() % gradient.nrows as nat == 0,
        b.len() % gradient.nrows as nat == 0,
        old(output).nrows == Op::SolutionDim::dim_spec() * (a.len() / gradient.nrows as nat),
        old(output).ncols == Op::SolutionDim::dim_spec() * (b.len() / gradient.nrows as nat),
        gradient.bounded(OPERATOR_INPUT_LIMIT as int),
        a.bounded(OPERATOR_INPUT_LIMIT as int),
        b.bounded(OPERATOR_INPUT_LIMIT as int),
        old(output).bounded(ACCUMULATE_LIMIT as int),
        alpha.bounded(ALPHA_LIMIT as int),
        old(output).den == alpha.den * op.contraction_den(
            gradient.den as int,
            a.den as int,
            b.den as int,
            parameters,
        ),
    ensures
        final(output).wf(),
        final(output).nrows == old(output).nrows,
        final(output).ncols == old(output).ncols,
        final(output).den == old(output).den,
        forall|row: int, col: int|
            0 <= row < final(output).nrows && 0 <= col < final(output).ncols
                ==> #[trigger] mat_num(*final(output), row, col) == accumulated_entry(
                op,
                *old(output),
                *alpha,
                *gradient,
                *a,
                *b,
                parameters,
                row,
                col,
            ),
{
    let ghost base = *output;
    let d = gradient.nrows;
    let s = <Op::SolutionDim as SmallDim>::dim();
    let m = a.nums.len() / d;
    let n = b.nums.len() / d;
    proof {
        vstd::arithmetic::div_mod::lemma_fundamental_div_mod(a.nums@.len() as int, d as int);
        vstd::arithmetic::div_mod::lemma_fundamental_div_mod(b.nums@.len() as int, d as int);
        assert(a.nums@.len() == d * m);
        assert(b.nums@.len() == d * n);
    }
    let mut j: usize = 0;
    while j < n
        invariant
            output.wf(),
            alpha.wf(),
            gradient.wf(),
            a.wf(),
            b.wf(),
            gradient.ncols == Op::SolutionDim::dim_spec(),
            1 <= gradient.nrows <= 3,
            d == gradient.nrows,
            s == Op::SolutionDim::dim_spec(),
            1 <= s <= 3,
            a.nums@.len() == d * m,
            b.nums@.len() == d * n,
            m == a.len() / gradient.nrows as nat,
            n == b.len() / gradient.nrows as nat,
            output.nrows == base.nrows,
            output.ncols == base.ncols,
            output.den == base.den,
            output.nums@.len() == base.nums@.len(),
            base.wf(),
            base.nrows == s * m,
            base.ncols == s * n,
            gradient.bounded(OPERATOR_INPUT_LIMIT as int),
            a.bounded(OPERATOR_INPUT_LIMIT as int),
            b.bounded(OPERATOR_INPUT_LIMIT as int),
            base.bounded(ACCUMULATE_LIMIT as int),
            alpha.bounded(ALPHA_LIMIT as int),
            base.den == alpha.den * op.contraction_den(
                gradient.den as int,
                a.den as int,
                b.den as int,
                parameters,
            ),
            j <= n,
            forall|row: int, col: int|
                0 <= row < base.nrows && 0 <= col < base.ncols ==> #[trigger] mat_num(
                    *output,
                    row,
                    col,
                ) == if col < j * s {
                    accumulated_entry(op, base, *alpha, *gradient, *a, *b, parameters, row, col)
                } else {
                    mat_num(base, row, col)
                },
        decreases n - j,
    {
        proof {
            mul_le_mono(j as int, n - 1, s as int);
            assert((n - 1) * s + s == n * s) by (nonlinear_arith);
            assert(n * s == s * n) by (nonlinear_arith);
        }
        proof {
            mul_le_mono(j + 1 as int, n as int, d as int);
            assert(n as int * d == d * n) by (nonlinear_arith);
        }
        let bcol = collect_block(&b.nums, d, j);
        let bvec = RVec { nums: bcol, den: b.den };
        proof {
            assert forall|kk: int| 0 <= kk < bvec.nums@.len() implies iabs(
                #[trigger] bvec.nums@[kk] as int,
            ) <= OPERATOR_INPUT_LIMIT as int by {
                assert(bvec.nums@[kk] == b.nums@[j as int * d + kk]);
                assert((j + 1) * d <= b.nums@.len());
                assert(j as int * d + d == (j + 1) * d) by (nonlinear_arith);
                assert(j as int * d >= 0) by (nonlinear_arith);
                assert(iabs(b.nums@[j as int * d + kk] as int) <= OPERATOR_INPUT_LIMIT as int);
            }
        }
        let mut i: usize = 0;
        while i < m
            invariant
                output.wf(),
                alpha.wf(),
                gradient.wf(),
                a.wf(),
                b.wf(),
                bvec.wf(),
                gradient.ncols == Op::SolutionDim::dim_spec(),
                1 <= gradient.nrows <= 3,
                d == gradient.nrows,
                s == Op::SolutionDim::dim_spec(),
                1 <= s <= 3,
                a.nums@.len() == d * m,
                b.nums@.len() == d * n,
                m == a.len() / gradient.nrows as nat,
                n == b.len() / gradient.nrows as nat,
                output.nrows == base.nrows,
                output.ncols == base.ncols,
                output.den == base.den,
                output.nums@.len() == base.nums@.len(),
                base.wf(),
                base.nrows == s * m,
                base.ncols == s * n,
                gradient.bounded(OPERATOR_INPUT_LIMIT as int),
                a.bounded(OPERATOR_INPUT_LIMIT as int),
                b.bounded(OPERATOR_INPUT_LIMIT as int),
                base.bounded(ACCUMULATE_LIMIT as int),
                alpha.bounded(ALPHA_LIMIT as int),
                base.den == alpha.den * op.contraction_den(
                    gradient.den as int,
                    a.den as int,
                    b.den as int,
                    parameters,
                ),
                j < n,
                i <= m,
                bvec.den == b.den,
                bvec.nums@.len() == d,
                seq_ints(bvec.nums@) == seq_ints(b.nums@).subrange(
                    j as int * d,
                    j as int * d + d,
                ),
                bvec.bounded(OPERATOR_INPUT_LIMIT as int),
                forall|row: int, col: int|
                    0 <= row < base.nrows && 0 <= col < base.ncols ==> #[trigger] mat_num(
                        *output,
                        row,
                        col,
                    ) == if col < j * s || (col < (j + 1) * s && row < i * s) {
                        accumulated_entry(op, base, *alpha, *gradient, *a, *b, parameters, row, col)
                    } else {
                        mat_num(base, row, col)
                    },
            decreases m - i,
        {
            proof {
                mul_le_mono(i as int, m - 1, s as int);
                assert((m - 1) * s + s == m * s) by (nonlinear_arith);
                assert(m * s == s * m) by (nonlinear_arith);
            }
            proof {
                mul_le_mono(i + 1 as int, m as int, d as int);
                assert(m as int * d == d * m) by (nonlinear_arith);
            }
            let acol = collect_block(&a.nums, d, i);
            let avec = RVec { nums: acol, den: a.den };
            proof {
                assert forall|kk: int| 0 <= kk < avec.nums@.len() implies iabs(
                    #[trigger] avec.nums@[kk] as int,
                ) <= OPERATOR_INPUT_LIMIT as int by {
                    assert(avec.nums@[kk] == a.nums@[i as int * d + kk]);
                    assert((i + 1) * d <= a.nums@.len());
                    assert(i as int * d + d == (i + 1) * d) by (nonlinear_arith);
                    assert(i as int * d >= 0) by (nonlinear_arith);
                    assert(iabs(a.nums@[i as int * d + kk] as int) <= OPERATOR_INPUT_LIMIT as int);
                }
            }
            let c = op.contract(gradient, &avec, &bvec, parameters);
            let mut q: usize = 0;
            while q < s
                invariant
                    output.wf(),
                    alpha.wf(),
                    gradient.wf(),
                    a.wf(),
                    b.wf(),
                    gradient.ncols == Op::SolutionDim::dim_spec(),
                    1 <= gradient.nrows <= 3,
                    d == gradient.nrows,
                    s == Op::SolutionDim::dim_spec(),
                    1 <= s <= 3,
                    a.nums@.len() == d * m,
                    b.nums@.len() == d * n,
                    m == a.len() / gradient.nrows as nat,
                    n == b.len() / gradient.nrows as nat,
                    output.nrows == base.nrows,
                    output.ncols == base.ncols,
                    output.den == base.den,
                    output.nums@.len() == base.nums@.len(),
                    base.wf(),
                    base.nrows == s * m,
                    base.ncols == s * n,
                    base.bounded(ACCUMULATE_LIMIT as int),
                    alpha.bounded(ALPHA_LIMIT as int),
                    j < n,
                    i < m,
                    q <= s,
                    c.wf(),
                    c.nrows == s,
                    c.ncols == s,
                    c.bounded(CONTRACTION_VALUE_LIMIT as int),
                    forall|rr: int, cc: int|
                        0 <= rr < s && 0 <= cc < s ==> #[trigger] mat_num(c, rr, cc)
                            == op.contraction_num(
                            seq_ints(gradient.nums@),
                            gradient.den as int,
                            seq_ints(a.nums@).subrange(i as int * d, i as int * d + d),
                            a.den as int,
                            seq_ints(b.nums@).subrange(j as int * d, j as int * d + d),
                            b.den as int,
                            parameters,
                            rr,
                            cc,
                        ),
                    forall|row: int, col: int|
                        0 <= row < base.nrows && 0 <= col < base.ncols ==> #[trigger] mat_num(
                            *output,
                            row,
                            col,
                        ) == if col < j * s || (col < (j + 1) * s && row < i * s) || (col < j * s
                            + q && i * s <= row < (i + 1) * s) {
                            accumulated_entry(
                                op,
                                base,
                                *alpha,
                                *gradient,
                                *a,
                                *b,
                                parameters,
                                row,
                                col,
                            )
                        } else {
                            mat_num(base, row, col)
                        },
                decreases s - q,
            {
                let mut pp: usize = 0;
                while pp < s
                    invariant
                        output.wf(),
                        alpha.wf(),
                        gradient.wf(),
                        a.wf(),
                        b.wf(),
                        gradient.ncols == Op::SolutionDim::dim_spec(),
                        1 <= gradient.nrows <= 3,
                        d == gradient.nrows,
                        s == Op::SolutionDim::dim_spec(),
                        1 <= s <= 3,
                        a.nums@.len() == d * m,
                        b.nums@.len() == d * n,
                        m == a.len() / gradient.nrows as nat,
                        n == b.len() / gradient.nrows as nat,
                        output.nrows == base.nrows,
                        output.ncols == base.ncols,
                        output.den == base.den,
                        output.nums@.len() == base.nums@.len(),
                        base.wf(),
                        base.nrows == s * m,
                        base.ncols == s * n,
                        base.bounded(ACCUMULATE_LIMIT as int),
                        alpha.bounded(ALPHA_LIMIT as int),
                        j < n,
                        i < m,
                        q < s,
                        pp <= s,
                        c.wf(),
                        c.nrows == s,
                        c.ncols == s,
                        c.bounded(CONTRACTION_VALUE_LIMIT as int),
                        forall|rr: int, cc: int|
                            0 <= rr < s && 0 <= cc < s ==> #[trigger] mat_num(c, rr, cc)
                                == op.contraction_num(
                                seq_ints(gradient.nums@),
                                gradient.den as int,
                                seq_ints(a.nums@).subrange(i as int * d, i as int * d + d),
                                a.den as int,
                                seq_ints(b.nums@).subrange(j as int * d, j as int * d + d),
                                b.den as int,
                                parameters,
                                rr,
                                cc,
                            ),
                        forall|row: int, col: int|
                            0 <= row < base.nrows && 0 <= col < base.ncols ==> #[trigger] mat_num(
                                *output,
                                row,
                                col,
                            ) == if col < j * s || (col < (j + 1) * s && row < i * s) || (col < j
                                * s + q && i * s <= row < (i + 1) * s) || (col == j * s + q && i
                                * s <= row < i * s + pp) {
                                accumulated_entry(
                                    op,
                                    base,
                                    *alpha,
                                    *gradient,
                                    *a,
                                    *b,
                                    parameters,
                                    row,
                                    col,
                                )
                            } else {
                                mat_num(base, row, col)
                            },
                    decreases s - pp,
                {
                    let row = i * s + pp;
                    let col = j * s + q;
                    proof {
                        mul_le_mono(i as int, m - 1, s as int);
                        mul_le_mono(j as int, n - 1, s as int);
                        assert((m - 1) * s + s == m * s) by (nonlinear_arith);
                        assert((n - 1) * s + s == n * s) by (nonlinear_arith);
                        assert(m * s == s * m) by (nonlinear_arith);
                        assert(n * s == s * n) by (nonlinear_arith);
                        lemma_mat_index_range(*output, row as int, col as int);
                        lemma_mat_entry_bounded(c, pp as int, q as int, CONTRACTION_VALUE_LIMIT as int);
                        mul_bound(alpha.num as int, mat_num(c, pp as int, q as int),
                            ALPHA_LIMIT as int, CONTRACTION_VALUE_LIMIT as int);
                        lemma_mat_index_range(c, pp as int, q as int);
                        assert(mat_num(*output, row as int, col as int) == mat_num(
                            base,
                            row as int,
                            col as int,
                        ));
                        lemma_mat_entry_bounded(base, row as int, col as int, ACCUMULATE_LIMIT as int);
                    }
                    proof {
                        lemma_mat_index_range(*output, row as int, col as int);
                        lemma_mat_index_range(c, pp as int, q as int);
                        assert(row < output.nrows && col < output.ncols) by (nonlinear_arith)
                            requires
                                row == i * s + pp,
                                col == j * s + q,
                                0 <= pp < s,
                                0 <= q < s,
                                0 <= i < m,
                                0 <= j < n,
                                output.nrows == s * m,
                                output.ncols == s * n,
                        ;
                    }
                    let out_len = output.nums.len();
                    let c_len = c.nums.len();
                    let idx = col * output.nrows + row;
                    let cval = c.nums[q * s + pp];
                    let ghost prev = *output;
                    output.nums[idx] = output.nums[idx] + alpha.num * cval;
                    proof {
                        assert(mat_num(*output, row as int, col as int) == mat_num(
                            base,
                            row as int,
                            col as int,
                        ) + alpha.num * mat_num(c, pp as int, q as int));
                        assert(row as int / s as int == i as int && row as int % s as int
                            == pp as int) by (nonlinear_arith)
                            requires
                                row == i * s + pp,
                                0 <= pp < s,
                                0 <= i,
                                s >= 1,
                        ;
                        assert(col as int / s as int == j as int && col as int % s as int
                            == q as int) by (nonlinear_arith)
                            requires
                                col == j * s + q,
                                0 <= q < s,
                                0 <= j,
                                s >= 1,
                        ;
                        assert(mat_num(*output, row as int, col as int) == accumulated_entry(
                            op,
                            base,
                            *alpha,
                            *gradient,
                            *a,
                            *b,
                            parameters,
                            row as int,
                            col as int,
                        ));
                        assert forall|r2: int, c2: int|
                            0 <= r2 < base.nrows && 0 <= c2 < base.ncols && !(r2 == row && c2
                                == col) implies #[trigger] mat_num(*output, r2, c2) == mat_num(
                            prev,
                            r2,
                            c2,
                        ) by {
                            lemma_mat_index_range(prev, r2, c2);
                            lemma_distinct_entries(prev, r2, c2, row as int, col as int);
                        }
                    }
                    pp = pp + 1;
                }
                q = q + 1;
            }
            i = i + 1;
        }
        j = j + 1;
    }
    proof {
        assert(s as int * n as int == n as int * s as int) by (nonlinear_arith);
    }
}

/// The exact value of an output entry after one batched accumulation: the old
/// entry plus the scaled contraction of the direction pair whose blocks cover
/// that entry.
pub open spec fn accumulated_entry<Op: EllipticContraction + ?Sized>(
    op: &Op,
    base: MatR,
    alpha: Rational,
    gradient: MatR,
    a: RVec,
    b: RVec,
    parameters: &Op::Parameters,
    row: int,
    col: int,
) -> int {
    let s = Op::SolutionDim::dim_spec() as int;
    let d = gradient.nrows as int;
    mat_num(base, row, col) + alpha.num * op.contraction_num(
        seq_ints(gradient.nums@),
        gradient.den as int,
        seq_ints(a.nums@).subrange((row / s) * d, (row / s) * d + d),
        a.den as int,
        seq_ints(b.nums@).subrange((col / s) * d, (col / s) * d + d),
        b.den as int,
        parameters,
        row % s,
        col % s,
    )
}

/// Distinct row/column pairs address distinct backing entries of a matrix.
proof fn lemma_distinct_entries(m: MatR, r1: int, c1: int, r2: int, c2: int)
    requires
        m.wf(),
        0 <= r1 < m.nrows,
        0 <= c1 < m.ncols,
        0 <= r2 < m.nrows,
        0 <= c2 < m.ncols,
        !(r1 == r2 && c1 == c2),
    ensures
        c1 * m.nrows + r1 != c2 * m.nrows + r2,
{
    lemma_mat_index_range(m, r1, c1);
    lemma_mat_index_range(m, r2, c2);
    assert(c1 * m.nrows + r1 != c2 * m.nrows + r2) by (nonlinear_arith)
        requires
            0 <= r1 < m.nrows,
            0 <= r2 < m.nrows,
            0 <= c1,
            0 <= c2,
            !(r1 == r2 && c1 == c2),
    ;
}

/// Gather the `i`-th stacked block of `d` entries from a stacked vector.
pub(crate) fn collect_block(nums: &Vec<i128>, d: usize, i: usize) -> (r: Vec<i128>)
    requires
        d >= 1,
        (i + 1) * d <= nums@.len(),
    ensures
        r@.len() == d,
        seq_ints(r@) == seq_ints(nums@).subrange(i as int * d, i as int * d + d),
        forall|k: int| 0 <= k < d ==> #[trigger] r@[k] == nums@[i as int * d + k],
{
    let total = nums.len();
    let mut r: Vec<i128> = Vec::new();
    let mut k: usize = 0;
    proof {
        assert(i as int * d + d == (i + 1) * d) by (nonlinear_arith);
        assert(i as int * d >= 0) by (nonlinear_arith);
    }
    while k < d
        invariant
            d >= 1,
            total == nums@.len(),
            (i + 1) * d <= total,
            i as int * d + d == (i + 1) * d,
            i as int * d >= 0,
            k <= d,
            r@.len() == k,
            forall|kk: int| 0 <= kk < k ==> #[trigger] r@[kk] == nums@[i as int * d + kk],
        decreases d - k,
    {
        r.push(nums[i * d + k]);
        k = k + 1;
    }
    proof {
        assert forall|kk: int| 0 <= kk < d implies seq_ints(r@)[kk] == seq_ints(
            nums@,
        ).subrange(i as int * d, i as int * d + d)[kk] by {
            assert(r@[kk] == nums@[i as int * d + kk]);
        }
        assert(seq_ints(r@) =~= seq_ints(nums@).subrange(i as int * d, i as int * d + d));
    }
    r
}

} // verus!
