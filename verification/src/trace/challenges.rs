//! Random challenges of the auxiliary trace and the encoding of bus messages.

use vstd::prelude::*;

use crate::constraints::evaluator::vals;
use crate::constraints::ext_field::{QuadFeltExpr, q, q_add, q_scale};
use crate::field::{Felt, p};

verus! {

/// The randomness that bus messages are encoded with.
///
/// A message `[e_0, .., e_{k-1}]` on bus `b` is encoded as
/// `bus_prefix[b] + sum_i beta^i * e_i`, in the quadratic extension field.
pub struct Challenges {
    /// The domain separator of each bus, indexed by bus type.
    pub bus_prefix: Vec<QuadFeltExpr<Felt>>,
    /// The powers `beta^0, beta^1, ..` that weigh the elements of a message.
    pub beta_powers: Vec<QuadFeltExpr<Felt>>,
}

/// `prefix + sum_{i < elems.len()} betas[i] * elems[i]`.
pub open spec fn message_value(
    prefix: (int, int),
    betas: Seq<QuadFeltExpr<Felt>>,
    elems: Seq<int>,
) -> (int, int)
    decreases elems.len(),
{
    if elems.len() == 0 {
        prefix
    } else {
        let k = elems.len() - 1;
        q_add(message_value(prefix, betas, elems.drop_last()), q_scale(q(betas[k]), elems[k]))
    }
}

impl Challenges {
    /// The encoding of the message `elems` on bus `bus`.
    pub open spec fn msg(&self, bus: int, elems: Seq<int>) -> (int, int) {
        message_value(q(self.bus_prefix@[bus]), self.beta_powers@, elems)
    }

    /// The prefix of bus `bus`, as a pair of coordinates.
    pub open spec fn prefix(&self, bus: int) -> (int, int) {
        q(self.bus_prefix@[bus])
    }

    /// Encodes the message `elems` on bus `bus`: `bus_prefix[bus] + sum_i beta^i * elems[i]`.
    pub fn encode(&self, bus: usize, elems: &[Felt]) -> (r: QuadFeltExpr<Felt>)
        requires
            bus < self.bus_prefix.len(),
            elems.len() <= self.beta_powers.len(),
        ensures
            q(r) == self.msg(bus as int, vals(elems@)),
    {
        let mut acc = self.bus_prefix[bus];
        let mut i: usize = 0;
        while i < elems.len()
            invariant
                i <= elems.len(),
                elems.len() <= self.beta_powers.len(),
                bus < self.bus_prefix.len(),
                q(acc) == message_value(q(self.bus_prefix@[bus as int]), self.beta_powers@, vals(elems@).take(i as int)),
            decreases elems.len() - i,
        {
            let term = self.beta_powers[i].mul_base(elems[i]);
            acc = acc.add(term);
            proof {
                let s = vals(elems@).take(i as int + 1);
                assert(s.drop_last() =~= vals(elems@).take(i as int));
            }
            i = i + 1;
        }
        proof {
            assert(vals(elems@).take(elems.len() as int) =~= vals(elems@));
        }
        acc
    }
}

/// Every encoded message is a pair of residues.
pub proof fn lemma_msg_in_range(ch: Challenges, bus: int, elems: Seq<int>)
    ensures
        0 <= ch.msg(bus, elems).0 < p(),
        0 <= ch.msg(bus, elems).1 < p(),
{
    ch.bus_prefix@[bus].0.lemma_val_range();
    ch.bus_prefix@[bus].1.lemma_val_range();
    if elems.len() > 0 {
        let k = elems.len() - 1;
        let a = message_value(q(ch.bus_prefix@[bus]), ch.beta_powers@, elems.drop_last());
        let b = q_scale(q(ch.beta_powers@[k]), elems[k]);
        vstd::arithmetic::div_mod::lemma_mod_bound(a.0 + b.0, p());
        vstd::arithmetic::div_mod::lemma_mod_bound(a.1 + b.1, p());
    }
}

} // verus!
