//! Boolean negation and bit aggregation helpers for constraint code.

use vstd::prelude::*;
use vstd::arithmetic::div_mod::{lemma_add_mod_noop, lemma_mul_mod_noop};

use crate::field::{Felt, fsub, p};

verus! {

/// Boolean negation `1 - self`.
pub trait BoolNot: Sized {
    /// Returns `1 - self`.
    fn not(&self) -> Self;
}

impl BoolNot for Felt {
    fn not(&self) -> (r: Felt)
        ensures
            r.val() == fsub(1, self.val()),
    {
        Felt::one().sub(*self)
    }
}

/// The integer `sum(2^i * limbs[i])` of little-endian limbs.
pub open spec fn bits_value(limbs: Seq<Felt>) -> int
    decreases limbs.len(),
{
    if limbs.len() == 0 {
        0
    } else {
        limbs[0].val() + 2 * bits_value(limbs.drop_first())
    }
}

/// Aggregate bits into a value (little-endian) using Horner's method: `sum(2^i * limbs[i])`.
///
/// Evaluates as `((limbs[N-1]*2 + limbs[N-2])*2 + ...)*2 + limbs[0]`.
pub fn horner_eval_bits<const N: usize>(limbs: &[Felt; N]) -> (r: Felt)
    requires
        N >= 1,
    ensures
        r.val() == bits_value(limbs@) % p(),
{
    let mut acc = limbs[N - 1];
    proof {
        let tail = limbs@.subrange(N - 1, N as int);
        assert(tail.drop_first() =~= Seq::<Felt>::empty());
        assert(bits_value(tail.drop_first()) == 0);
        assert(tail[0] == acc);
        acc.lemma_val_range();
        vstd::arithmetic::div_mod::lemma_small_mod(acc.val() as nat, p() as nat);
        assert(bits_value(tail) == acc.val());
    }
    let mut i = N - 1;
    while i > 0
        invariant
            N >= 1,
            i < N,
            acc.val() == bits_value(limbs@.subrange(i as int, N as int)) % p(),
        decreases i,
    {
        let ghost prev = bits_value(limbs@.subrange(i as int, N as int));
        let limb = limbs[i - 1];
        acc = acc.double().add(limb);
        proof {
            let s = limbs@.subrange(i - 1, N as int);
            assert(s.drop_first() =~= limbs@.subrange(i as int, N as int));
            assert(s[0] == limb);
            limb.lemma_val_range();
            vstd::arithmetic::div_mod::lemma_small_mod(limb.val() as nat, p() as nat);
            lemma_add_mod_noop(prev, prev, p());
            lemma_add_mod_noop(prev + prev, limb.val(), p());
        }
        i = i - 1;
    }
    assert(limbs@.subrange(0, N as int) =~= limbs@);
    acc
}

} // verus!
