//! Elements of the Goldilocks prime field `p = 2^64 - 2^32 + 1`.
//!
//! A `Felt` stores a 64-bit word; its mathematical value is that word reduced modulo `p`,
//! so every `u64` is a valid representation (as in the non-canonical Goldilocks encoding).
//! All contracts speak of `Felt::val`, the residue in `[0, p)`.

use vstd::prelude::*;
use vstd::arithmetic::div_mod::{
    lemma_add_mod_noop, lemma_mod_bound, lemma_mul_mod_noop, lemma_sub_mod_noop,
    lemma_small_mod, lemma_mod_twice,
};

verus! {

/// The Goldilocks prime `2^64 - 2^32 + 1`.
pub const GOLDILOCKS_PRIME: u64 = 0xFFFF_FFFF_0000_0001;

/// The field modulus as a mathematical integer.
pub open spec fn p() -> int {
    0xFFFF_FFFF_0000_0001
}

/// Field addition on residues.
pub open spec fn fadd(a: int, b: int) -> int {
    (a + b) % p()
}

/// Field subtraction on residues.
pub open spec fn fsub(a: int, b: int) -> int {
    (a - b) % p()
}

/// Field multiplication on residues.
pub open spec fn fmul(a: int, b: int) -> int {
    (a * b) % p()
}

/// A Goldilocks field element.
#[derive(Clone, Copy, Debug)]
pub struct Felt {
    value: u64,
}

impl Felt {
    /// The value of the element: its stored word reduced modulo `p`.
    pub closed spec fn val(self) -> int {
        (self.value as int) % p()
    }

    /// Every value lies in `[0, p)`.
    pub proof fn lemma_val_range(self)
        ensures
            0 <= self.val() < p(),
    {
        lemma_mod_bound(self.value as int, p());
    }

    /// Creates an element from any `u64`, which is taken modulo `p`.
    pub fn new_unchecked(value: u64) -> (r: Felt)
        ensures
            r.val() == (value as int) % p(),
    {
        Felt { value }
    }

    /// Creates an element from a `u64`, which is taken modulo `p`.
    pub fn from_u64(value: u64) -> (r: Felt)
        ensures
            r.val() == (value as int) % p(),
    {
        Felt { value }
    }

    /// Creates an element from a `u8`.
    pub fn from_u8(value: u8) -> (r: Felt)
        ensures
            r.val() == value as int,
    {
        proof {
            lemma_small_mod(value as nat, p() as nat);
        }
        Felt { value: value as u64 }
    }

    /// Creates an element from a `u16`.
    pub fn from_u16(value: u16) -> (r: Felt)
        ensures
            r.val() == value as int,
    {
        proof {
            lemma_small_mod(value as nat, p() as nat);
        }
        Felt { value: value as u64 }
    }

    /// The additive identity.
    pub fn zero() -> (r: Felt)
        ensures
            r.val() == 0,
    {
        Felt { value: 0 }
    }

    /// The multiplicative identity.
    pub fn one() -> (r: Felt)
        ensures
            r.val() == 1,
    {
        Felt { value: 1 }
    }

    /// Returns the canonical representative in `[0, p)`.
    pub fn as_canonical_u64(&self) -> (r: u64)
        ensures
            r as int == self.val(),
            (r as int) < p(),
    {
        self.value % GOLDILOCKS_PRIME
    }

    /// Field addition.
    pub fn add(self, rhs: Felt) -> (r: Felt)
        ensures
            r.val() == fadd(self.val(), rhs.val()),
    {
        let x = self.value % GOLDILOCKS_PRIME;
        let y = rhs.value % GOLDILOCKS_PRIME;
        let s: u128 = x as u128 + y as u128;
        let v = (s % (GOLDILOCKS_PRIME as u128)) as u64;
        proof {
            lemma_mod_bound(s as int, p());
            lemma_mod_twice(s as int, p());
        }
        Felt { value: v }
    }

    /// Field subtraction.
    pub fn sub(self, rhs: Felt) -> (r: Felt)
        ensures
            r.val() == fsub(self.val(), rhs.val()),
    {
        let x = self.value % GOLDILOCKS_PRIME;
        let y = rhs.value % GOLDILOCKS_PRIME;
        let s: u128 = x as u128 + (GOLDILOCKS_PRIME - y) as u128;
        let v = (s % (GOLDILOCKS_PRIME as u128)) as u64;
        proof {
            lemma_mod_bound(s as int, p());
            lemma_mod_twice(s as int, p());
            assert((x + (p() - y)) % p() == (x - y) % p()) by {
                vstd::arithmetic::div_mod::lemma_mod_add_multiples_vanish(x - y, p());
            }
        }
        Felt { value: v }
    }

    /// Field negation.
    pub fn neg(self) -> (r: Felt)
        ensures
            r.val() == fsub(0, self.val()),
    {
        Felt::zero().sub(self)
    }

    /// Field multiplication.
    pub fn mul(self, rhs: Felt) -> (r: Felt)
        ensures
            r.val() == fmul(self.val(), rhs.val()),
    {
        let x = self.value % GOLDILOCKS_PRIME;
        let y = rhs.value % GOLDILOCKS_PRIME;
        proof {
            assert((x as int) * (y as int) < 0x1_0000_0000_0000_0000_0000_0000_0000_0000int)
                by (nonlinear_arith)
                requires
                    x < 0x1_0000_0000_0000_0000int,
                    y < 0x1_0000_0000_0000_0000int,
            ;
        }
        let m: u128 = (x as u128) * (y as u128);
        let v = (m % (GOLDILOCKS_PRIME as u128)) as u64;
        proof {
            lemma_mod_bound(m as int, p());
            lemma_mod_twice(m as int, p());
        }
        Felt { value: v }
    }

    /// Returns `self + self`.
    pub fn double(self) -> (r: Felt)
        ensures
            r.val() == fadd(self.val(), self.val()),
    {
        self.add(self)
    }

    /// Returns `self * self`.
    pub fn square(self) -> (r: Felt)
        ensures
            r.val() == fmul(self.val(), self.val()),
    {
        self.mul(self)
    }
}

/// Reducing the left operand of a sum first does not change the residue.
pub broadcast proof fn lemma_mod_add_left(x: int, y: int)
    ensures
        #[trigger] (((x % p()) + y) % p()) == (x + y) % p(),
{
    vstd::arithmetic::div_mod::lemma_add_mod_noop(x, y, p());
    vstd::arithmetic::div_mod::lemma_add_mod_noop(x % p(), y, p());
    lemma_mod_twice(x, p());
}

/// Reducing the right operand of a sum first does not change the residue.
pub broadcast proof fn lemma_mod_add_right(x: int, y: int)
    ensures
        #[trigger] ((x + (y % p())) % p()) == (x + y) % p(),
{
    vstd::arithmetic::div_mod::lemma_add_mod_noop_right(x, y, p());
}

/// Reducing the left operand of a difference first does not change the residue.
pub broadcast proof fn lemma_mod_sub_left(x: int, y: int)
    ensures
        #[trigger] (((x % p()) - y) % p()) == (x - y) % p(),
{
    lemma_sub_mod_noop(x, y, p());
    lemma_sub_mod_noop(x % p(), y, p());
    lemma_mod_twice(x, p());
}

/// Reducing the right operand of a difference first does not change the residue.
pub broadcast proof fn lemma_mod_sub_right(x: int, y: int)
    ensures
        #[trigger] ((x - (y % p())) % p()) == (x - y) % p(),
{
    vstd::arithmetic::div_mod::lemma_sub_mod_noop_right(x, y, p());
}

/// Field addition of two reduced values is the reduction of their sum.
pub proof fn lemma_fadd_of_residues(x: int, y: int)
    ensures
        fadd(x % p(), y % p()) == (x + y) % p(),
{
    lemma_mod_add_left(x, y % p());
    lemma_mod_add_right(x, y);
}

/// Field subtraction of two reduced values is the reduction of their difference.
pub proof fn lemma_fsub_of_residues(x: int, y: int)
    ensures
        fsub(x % p(), y % p()) == (x - y) % p(),
{
    lemma_mod_sub_left(x, y % p());
    lemma_mod_sub_right(x, y);
}

/// Field multiplication of two reduced values is the reduction of their product.
pub proof fn lemma_fmul_of_residues(x: int, y: int)
    ensures
        fmul(x % p(), y % p()) == (x * y) % p(),
{
    lemma_mod_mul_left(x, y % p());
    lemma_mod_mul_right(x, y);
}

/// A value in `[0, p)` is its own residue.
pub proof fn lemma_residue_is_reduced(x: int)
    requires
        0 <= x < p(),
    ensures
        x % p() == x,
{
    lemma_small_mod(x as nat, p() as nat);
}

/// For residues `a` and `b`, `a - b` vanishes in the field exactly when `a == b`.
pub proof fn lemma_fsub_zero_iff(a: int, b: int)
    requires
        0 <= a < p(),
        0 <= b < p(),
    ensures
        (fsub(a, b) % p() == 0) <==> a == b,
{
    let d = a - b;
    vstd::arithmetic::div_mod::lemma_mod_twice(d, p());
    if d > 0 {
        vstd::arithmetic::div_mod::lemma_small_mod(d as nat, p() as nat);
    } else if d < 0 {
        vstd::arithmetic::div_mod::lemma_mod_add_multiples_vanish(d, p());
        vstd::arithmetic::div_mod::lemma_small_mod((d + p()) as nat, p() as nat);
    } else {
        vstd::arithmetic::div_mod::lemma_small_mod(0, p() as nat);
    }
}

/// `fmul(1, fsub(a, b))` vanishes exactly when the residues `a` and `b` are equal.
pub proof fn lemma_unit_gated_eq(a: int, b: int)
    requires
        0 <= a < p(),
        0 <= b < p(),
    ensures
        (fmul(1, fsub(a, b)) == 0) <==> a == b,
{
    vstd::arithmetic::div_mod::lemma_mod_twice(a - b, p());
    lemma_fsub_zero_iff(a, b);
}

/// Reducing the left factor of a product first does not change the residue.
pub broadcast proof fn lemma_mod_mul_left(x: int, y: int)
    ensures
        #[trigger] (((x % p()) * y) % p()) == (x * y) % p(),
{
    vstd::arithmetic::div_mod::lemma_mul_mod_noop_left(x, y, p());
}

/// Reducing the right factor of a product first does not change the residue.
pub broadcast proof fn lemma_mod_mul_right(x: int, y: int)
    ensures
        #[trigger] ((x * (y % p())) % p()) == (x * y) % p(),
{
    vstd::arithmetic::div_mod::lemma_mul_mod_noop_right(x, y, p());
}

/// A residue is its own reduction.
pub broadcast proof fn lemma_mod_mod(x: int)
    ensures
        #[trigger] ((x % p()) % p()) == x % p(),
        0 <= x % p() < p(),
{
    lemma_mod_twice(x, p());
    lemma_mod_bound(x, p());
}

impl PartialEq for Felt {
    fn eq(&self, other: &Felt) -> (r: bool) {
        self.value % GOLDILOCKS_PRIME == other.value % GOLDILOCKS_PRIME
    }
}

impl vstd::std_specs::cmp::PartialEqSpecImpl for Felt {
    open spec fn obeys_eq_spec() -> bool {
        true
    }

    open spec fn eq_spec(&self, other: &Felt) -> bool {
        self.val() == other.val()
    }
}

impl Eq for Felt {
}

} // verus!
