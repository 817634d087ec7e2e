//! Quadratic extension elements `c0 + c1 * u` over the Goldilocks field, with `u^2 = 7`.

use vstd::prelude::*;
use vstd::arithmetic::div_mod::{lemma_add_mod_noop, lemma_mul_mod_noop, lemma_sub_mod_noop};

use crate::field::{Felt, fadd, fmul, fsub, p};

verus! {

/// Quadratic non-residue defining the extension: `u^2 = W`.
pub const W: u16 = 7;

/// Quadratic extension element represented as `(c0 + c1 * u)`.
#[derive(Clone, Copy, Debug)]
pub struct QuadFeltExpr<E>(pub E, pub E);

/// First coordinate of the product `(a0 + a1 u)(b0 + b1 u)`.
pub open spec fn quad_mul_c0(a0: int, a1: int, b0: int, b1: int) -> int {
    (a0 * b0 + 7 * (a1 * b1)) % p()
}

/// Second coordinate of the product `(a0 + a1 u)(b0 + b1 u)`.
pub open spec fn quad_mul_c1(a0: int, a1: int, b0: int, b1: int) -> int {
    (a0 * b1 + a1 * b0) % p()
}

// EXTENSION-FIELD VALUES
// ================================================================================================

/// An extension element as the pair of its coordinate values.
pub open spec fn q(x: QuadFeltExpr<Felt>) -> (int, int) {
    (x.0.val(), x.1.val())
}

/// Extension addition.
pub open spec fn q_add(a: (int, int), b: (int, int)) -> (int, int) {
    (fadd(a.0, b.0), fadd(a.1, b.1))
}

/// Extension subtraction.
pub open spec fn q_sub(a: (int, int), b: (int, int)) -> (int, int) {
    (fsub(a.0, b.0), fsub(a.1, b.1))
}

/// Extension multiplication in `F_p[u] / (u^2 - 7)`.
pub open spec fn q_mul(a: (int, int), b: (int, int)) -> (int, int) {
    (quad_mul_c0(a.0, a.1, b.0, b.1), quad_mul_c1(a.0, a.1, b.0, b.1))
}

/// Multiplication by a base-field element.
pub open spec fn q_scale(a: (int, int), s: int) -> (int, int) {
    (fmul(a.0, s), fmul(a.1, s))
}

/// Addition of a base-field element.
pub open spec fn q_add_base(a: (int, int), s: int) -> (int, int) {
    (fadd(a.0, s), a.1)
}

/// The two constraints `gate * (x - y)` of an extension equality, one per coordinate.
pub open spec fn q_eq_values(gate: int, x: (int, int), y: (int, int)) -> Seq<int> {
    seq![fmul(gate, fsub(x.0, y.0)), fmul(gate, fsub(x.1, y.1))]
}

/// The extension element `1`.
pub open spec fn q_one() -> (int, int) {
    (1, 0)
}

/// A base-field value embedded in the extension.
pub open spec fn q_base(x: int) -> (int, int) {
    (x, 0)
}

impl<E> QuadFeltExpr<E> {
    /// Constructs a new extension element from two base-field components.
    pub fn new(c0: E, c1: E) -> (r: Self)
        ensures
            r.0 == c0,
            r.1 == c1,
    {
        QuadFeltExpr(c0, c1)
    }

    /// Returns the base-field components `[c0, c1]`.
    pub fn into_parts(self) -> (r: [E; 2])
        ensures
            r@ == seq![self.0, self.1],
    {
        [self.0, self.1]
    }

    /// Converts each component into another representation.
    pub fn into_expr<O>(self) -> (r: QuadFeltExpr<O>)
        where
            E: Into<O>,
        ensures
            call_ensures(<E as Into<O>>::into, (self.0,), r.0),
            call_ensures(<E as Into<O>>::into, (self.1,), r.1),
    {
        QuadFeltExpr(self.0.into(), self.1.into())
    }
}

impl QuadFeltExpr<Felt> {
    /// Value of the first coordinate.
    pub open spec fn c0(self) -> int {
        self.0.val()
    }

    /// Value of the second coordinate.
    pub open spec fn c1(self) -> int {
        self.1.val()
    }

    /// Returns `self + self`.
    pub fn double(self) -> (r: Self)
        ensures
            r.c0() == fadd(self.c0(), self.c0()),
            r.c1() == fadd(self.c1(), self.c1()),
    {
        QuadFeltExpr(self.0.double(), self.1.double())
    }

    /// Returns `self * self`: `(a0^2 + 7 a1^2) + (2 a0 a1) u`.
    pub fn square(self) -> (r: Self)
        ensures
            r.c0() == quad_mul_c0(self.c0(), self.c1(), self.c0(), self.c1()),
            r.c1() == quad_mul_c1(self.c0(), self.c1(), self.c0(), self.c1()),
    {
        let w = Felt::from_u16(W);
        let a0_sq = self.0.mul(self.0);
        let a1_sq = self.1.mul(self.1);
        let a0_a1 = self.0.mul(self.1);
        let c0 = a0_sq.add(w.mul(a1_sq));
        let c1 = a0_a1.double();
        proof {
            let (a0, a1) = (self.c0(), self.c1());
            lemma_mul_mod_noop(7, a1 * a1, p());
            lemma_add_mod_noop(a0 * a0, 7 * (a1 * a1), p());
            lemma_add_mod_noop(a0 * a1, a0 * a1, p());
            assert(a0 * a1 + a1 * a0 == a0 * a1 + a0 * a1) by (nonlinear_arith);
        }
        QuadFeltExpr(c0, c1)
    }

    /// Extension multiplication in `F_p[u] / (u^2 - 7)`.
    pub fn ext_mul(self, rhs: Self) -> (r: Self)
        ensures
            r.c0() == quad_mul_c0(self.c0(), self.c1(), rhs.c0(), rhs.c1()),
            r.c1() == quad_mul_c1(self.c0(), self.c1(), rhs.c0(), rhs.c1()),
    {
        let w = Felt::from_u16(W);
        let c0 = self.0.mul(rhs.0).add(w.mul(self.1.mul(rhs.1)));
        let c1 = self.0.mul(rhs.1).add(self.1.mul(rhs.0));
        proof {
            let (a0, a1, b0, b1) = (self.c0(), self.c1(), rhs.c0(), rhs.c1());
            lemma_mul_mod_noop(7, a1 * b1, p());
            lemma_add_mod_noop(a0 * b0, 7 * (a1 * b1), p());
            lemma_add_mod_noop(a0 * b1, a1 * b0, p());
        }
        QuadFeltExpr(c0, c1)
    }

    /// Component-wise addition.
    pub fn add(self, rhs: Self) -> (r: Self)
        ensures
            r.c0() == fadd(self.c0(), rhs.c0()),
            r.c1() == fadd(self.c1(), rhs.c1()),
    {
        QuadFeltExpr(self.0.add(rhs.0), self.1.add(rhs.1))
    }

    /// Component-wise subtraction.
    pub fn sub(self, rhs: Self) -> (r: Self)
        ensures
            r.c0() == fsub(self.c0(), rhs.c0()),
            r.c1() == fsub(self.c1(), rhs.c1()),
    {
        QuadFeltExpr(self.0.sub(rhs.0), self.1.sub(rhs.1))
    }

    /// Extension multiplication (the `*` of the extension field).
    pub fn mul(self, rhs: Self) -> (r: Self)
        ensures
            r.c0() == quad_mul_c0(self.c0(), self.c1(), rhs.c0(), rhs.c1()),
            r.c1() == quad_mul_c1(self.c0(), self.c1(), rhs.c0(), rhs.c1()),
    {
        self.ext_mul(rhs)
    }

    /// Adds a base-field element to the first coordinate.
    pub fn add_base(self, rhs: Felt) -> (r: Self)
        ensures
            r.c0() == fadd(self.c0(), rhs.val()),
            r.1 == self.1,
    {
        QuadFeltExpr(self.0.add(rhs), self.1)
    }

    /// Subtracts a base-field element from the first coordinate.
    pub fn sub_base(self, rhs: Felt) -> (r: Self)
        ensures
            r.c0() == fsub(self.c0(), rhs.val()),
            r.1 == self.1,
    {
        QuadFeltExpr(self.0.sub(rhs), self.1)
    }

    /// Multiplies both coordinates by a base-field element.
    pub fn mul_base(self, rhs: Felt) -> (r: Self)
        ensures
            r.c0() == fmul(self.c0(), rhs.val()),
            r.c1() == fmul(self.c1(), rhs.val()),
    {
        QuadFeltExpr(self.0.mul(rhs), self.1.mul(rhs))
    }
}

// LAWS OF THE EXTENSION PRODUCT
// ================================================================================================

/// Reducing the left factors of `x * u + k * (y * v)` does not change its residue.
proof fn lemma_reduce_left_factors(x: int, u: int, y: int, v: int, k: int)
    ensures
        ((x % p()) * u + k * ((y % p()) * v)) % p() == (x * u + k * (y * v)) % p(),
{
    let a = (x % p()) * u;
    let b = k * ((y % p()) * v);
    lemma_add_mod_noop(a, b, p());
    vstd::arithmetic::div_mod::lemma_mul_mod_noop_left(x, u, p());
    vstd::arithmetic::div_mod::lemma_mul_mod_noop_right(k, (y % p()) * v, p());
    vstd::arithmetic::div_mod::lemma_mul_mod_noop_left(y, v, p());
    vstd::arithmetic::div_mod::lemma_mul_mod_noop_right(k, y * v, p());
    lemma_add_mod_noop(x * u, k * (y * v), p());
}

/// Reducing the right factors of `x * u + k * (y * v)` does not change its residue.
proof fn lemma_reduce_right_factors(x: int, u: int, y: int, v: int, k: int)
    ensures
        (x * (u % p()) + k * (y * (v % p()))) % p() == (x * u + k * (y * v)) % p(),
{
    assert(x * (u % p()) == (u % p()) * x && y * (v % p()) == (v % p()) * y) by (nonlinear_arith);
    assert(x * u == u * x && y * v == v * y) by (nonlinear_arith);
    lemma_reduce_left_factors(u, x, v, y, k);
}

/// The extension product of two pairs commutes.
pub proof fn lemma_pair_mul_commutes(a: (int, int), b: (int, int))
    ensures
        q_mul(a, b) == q_mul(b, a),
{
    assert(a.0 * b.0 + 7 * (a.1 * b.1) == b.0 * a.0 + 7 * (b.1 * a.1)) by (nonlinear_arith);
    assert(a.0 * b.1 + a.1 * b.0 == b.0 * a.1 + b.1 * a.0) by (nonlinear_arith);
}

/// `1` is the identity of the extension product on reduced pairs.
pub proof fn lemma_pair_mul_one(a: (int, int))
    requires
        0 <= a.0 < p(),
        0 <= a.1 < p(),
    ensures
        q_mul(a, q_one()) == a,
        q_mul(q_one(), a) == a,
{
    vstd::arithmetic::div_mod::lemma_small_mod(a.0 as nat, p() as nat);
    vstd::arithmetic::div_mod::lemma_small_mod(a.1 as nat, p() as nat);
    lemma_pair_mul_commutes(a, q_one());
}

/// Scaling by a base value is the extension product with that value.
pub proof fn lemma_pair_scale_is_mul(a: (int, int), k: int)
    ensures
        q_scale(a, k) == q_mul(a, q_base(k)),
{
    assert(a.0 * k + 7 * (a.1 * 0) == a.0 * k) by (nonlinear_arith);
    assert(a.0 * 0 + a.1 * k == a.1 * k) by (nonlinear_arith);
}

/// The extension product of two pairs distributes over their sum and their difference.
pub proof fn lemma_pair_mul_distributes(a: (int, int), b: (int, int), c: (int, int))
    ensures
        q_mul(a, q_add(b, c)) == q_add(q_mul(a, b), q_mul(a, c)),
        q_mul(a, q_sub(b, c)) == q_sub(q_mul(a, b), q_mul(a, c)),
        q_mul(q_add(b, c), a) == q_add(q_mul(b, a), q_mul(c, a)),
        q_mul(q_sub(b, c), a) == q_sub(q_mul(b, a), q_mul(c, a)),
{
    let (a0, a1, b0, b1, c0, c1) = (a.0, a.1, b.0, b.1, c.0, c.1);
    // sum, first coordinate
    lemma_reduce_right_factors(a0, b0 + c0, a1, b1 + c1, 7);
    lemma_add_mod_noop(a0 * b0 + 7 * (a1 * b1), a0 * c0 + 7 * (a1 * c1), p());
    assert(a0 * (b0 + c0) + 7 * (a1 * (b1 + c1)) == (a0 * b0 + 7 * (a1 * b1)) + (a0 * c0 + 7 * (
    a1 * c1))) by (nonlinear_arith);
    // sum, second coordinate
    lemma_reduce_right_factors(a0, b1 + c1, a1, b0 + c0, 1);
    lemma_add_mod_noop(a0 * b1 + a1 * b0, a0 * c1 + a1 * c0, p());
    assert(a0 * (b1 + c1) + 1 * (a1 * (b0 + c0)) == (a0 * b1 + a1 * b0) + (a0 * c1 + a1 * c0))
        by (nonlinear_arith);
    // difference, first coordinate
    lemma_reduce_right_factors(a0, b0 - c0, a1, b1 - c1, 7);
    lemma_sub_mod_noop(a0 * b0 + 7 * (a1 * b1), a0 * c0 + 7 * (a1 * c1), p());
    assert(a0 * (b0 - c0) + 7 * (a1 * (b1 - c1)) == (a0 * b0 + 7 * (a1 * b1)) - (a0 * c0 + 7 * (
    a1 * c1))) by (nonlinear_arith);
    // difference, second coordinate
    lemma_reduce_right_factors(a0, b1 - c1, a1, b0 - c0, 1);
    lemma_sub_mod_noop(a0 * b1 + a1 * b0, a0 * c1 + a1 * c0, p());
    assert(a0 * (b1 - c1) + 1 * (a1 * (b0 - c0)) == (a0 * b1 + a1 * b0) - (a0 * c1 + a1 * c0))
        by (nonlinear_arith);
    assert(a0 * b1 + a1 * b0 == a0 * b1 + 1 * (a1 * b0));
    assert(a0 * c1 + a1 * c0 == a0 * c1 + 1 * (a1 * c0));
    // the right-hand forms follow by commutativity
    lemma_pair_mul_commutes(q_add(b, c), a);
    lemma_pair_mul_commutes(q_sub(b, c), a);
    lemma_pair_mul_commutes(b, a);
    lemma_pair_mul_commutes(c, a);
}

/// The extension product of pairs is associative.
pub proof fn lemma_pair_mul_associates(a: (int, int), b: (int, int), c: (int, int))
    ensures
        q_mul(q_mul(a, b), c) == q_mul(a, q_mul(b, c)),
{
    let (a0, a1, b0, b1, c0, c1) = (a.0, a.1, b.0, b.1, c.0, c.1);
    let d0 = a0 * b0 + 7 * (a1 * b1);
    let d1 = a0 * b1 + 1 * (a1 * b0);
    let e0 = b0 * c0 + 7 * (b1 * c1);
    let e1 = b0 * c1 + 1 * (b1 * c0);
    assert(a0 * b1 + a1 * b0 == d1);
    assert(b0 * c1 + b1 * c0 == e1);
    // ((a * b) * c).c0 and (a * (b * c)).c0
    lemma_reduce_left_factors(d0, c0, d1, c1, 7);
    lemma_reduce_right_factors(a0, e0, a1, e1, 7);
    assert(d0 * c0 == a0 * b0 * c0 + 7 * (a1 * b1 * c0)) by (nonlinear_arith)
        requires d0 == a0 * b0 + 7 * (a1 * b1);
    assert(d1 * c1 == a0 * b1 * c1 + a1 * b0 * c1) by (nonlinear_arith)
        requires d1 == a0 * b1 + 1 * (a1 * b0);
    assert(a0 * e0 == a0 * b0 * c0 + 7 * (a0 * b1 * c1)) by (nonlinear_arith)
        requires e0 == b0 * c0 + 7 * (b1 * c1);
    assert(a1 * e1 == a1 * b0 * c1 + a1 * b1 * c0) by (nonlinear_arith)
        requires e1 == b0 * c1 + 1 * (b1 * c0);
    assert(d0 * c0 + 7 * (d1 * c1) == a0 * e0 + 7 * (a1 * e1));
    // ((a * b) * c).c1 and (a * (b * c)).c1
    lemma_reduce_left_factors(d0, c1, d1, c0, 1);
    lemma_reduce_right_factors(a0, e1, a1, e0, 1);
    assert(d0 * c1 == a0 * b0 * c1 + 7 * (a1 * b1 * c1)) by (nonlinear_arith)
        requires d0 == a0 * b0 + 7 * (a1 * b1);
    assert(d1 * c0 == a0 * b1 * c0 + a1 * b0 * c0) by (nonlinear_arith)
        requires d1 == a0 * b1 + 1 * (a1 * b0);
    assert(a0 * e1 == a0 * b0 * c1 + a0 * b1 * c0) by (nonlinear_arith)
        requires e1 == b0 * c1 + 1 * (b1 * c0);
    assert(a1 * e0 == a1 * b0 * c0 + 7 * (a1 * b1 * c1)) by (nonlinear_arith)
        requires e0 == b0 * c0 + 7 * (b1 * c1);
    assert(d0 * c1 + 1 * (d1 * c0) == a0 * e1 + 1 * (a1 * e0));
    let ab = q_mul(a, b);
    let bc = q_mul(b, c);
    assert(ab.0 == d0 % p() && ab.1 == d1 % p());
    assert(bc.0 == e0 % p() && bc.1 == e1 % p());
    assert(q_mul(ab, c).1 == (ab.0 * c1 + ab.1 * c0) % p());
    assert(ab.0 * c1 + ab.1 * c0 == ab.0 * c1 + 1 * (ab.1 * c0));
    assert(q_mul(a, bc).1 == (a0 * bc.1 + a1 * bc.0) % p());
    assert(a0 * bc.1 + a1 * bc.0 == a0 * bc.1 + 1 * (a1 * bc.0));
}

/// The extension product commutes, and `1` is its identity.
pub proof fn lemma_q_mul_commutes_with_identity(x: QuadFeltExpr<Felt>, y: QuadFeltExpr<Felt>)
    ensures
        q_mul(q(x), q(y)) == q_mul(q(y), q(x)),
        q_mul(q(x), q_one()) == q(x),
{
    x.0.lemma_val_range();
    x.1.lemma_val_range();
    lemma_pair_mul_commutes(q(x), q(y));
    lemma_pair_mul_one(q(x));
}

/// The extension product distributes over the extension sum.
pub proof fn lemma_q_mul_distributes(x: QuadFeltExpr<Felt>, y: QuadFeltExpr<Felt>, z: QuadFeltExpr<Felt>)
    ensures
        q_mul(q(x), q_add(q(y), q(z))) == q_add(q_mul(q(x), q(y)), q_mul(q(x), q(z))),
{
    lemma_pair_mul_distributes(q(x), q(y), q(z));
}

/// The extension product is associative.
pub proof fn lemma_q_mul_associates(x: QuadFeltExpr<Felt>, y: QuadFeltExpr<Felt>, z: QuadFeltExpr<Felt>)
    ensures
        q_mul(q_mul(q(x), q(y)), q(z)) == q_mul(q(x), q_mul(q(y), q(z))),
{
    lemma_pair_mul_associates(q(x), q(y), q(z));
}

// QUAD FELT AIR BUILDER EXTENSION
// ================================================================================================

/// Asserting equality of quadratic extension field expressions on a constraint builder.
///
/// A builder provides `assert_eq` on base-field expressions; equality of two extension
/// elements is asserted component-wise.
pub trait QuadFeltAirBuilder: Sized {
    /// The base-field expression type of the builder.
    type Expr;

    /// `after` is the builder `before` once it has asserted `x == y`.
    spec fn eq_asserted(before: Self, x: Self::Expr, y: Self::Expr, after: Self) -> bool;

    /// Asserts `x == y` for base-field expressions.
    fn assert_eq(&mut self, x: Self::Expr, y: Self::Expr)
        ensures
            Self::eq_asserted(*old(self), x, y, *final(self)),
    ;

    /// Asserts `lhs == rhs` component-wise for quadratic extension field elements: first the
    /// equality of the first coordinates, then that of the second coordinates.
    fn assert_eq_quad(&mut self, lhs: QuadFeltExpr<Self::Expr>, rhs: QuadFeltExpr<Self::Expr>)
        ensures
            exists|mid: Self|
                #[trigger] Self::eq_asserted(*old(self), lhs.0, rhs.0, mid) && Self::eq_asserted(
                    mid,
                    lhs.1,
                    rhs.1,
                    *final(self),
                ),
    {
        let QuadFeltExpr(l0, l1) = lhs;
        let QuadFeltExpr(r0, r1) = rhs;
        self.assert_eq(l0, r0);
        let ghost mid = *self;
        self.assert_eq(l1, r1);
        assert(Self::eq_asserted(*old(self), lhs.0, rhs.0, mid) && Self::eq_asserted(
            mid,
            lhs.1,
            rhs.1,
            *self,
        ));
    }
}

} // verus!
