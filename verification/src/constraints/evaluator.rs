//! Evaluation of AIR constraints on concrete rows.
//!
//! Constraint code asserts polynomial expressions over a window of two consecutive rows
//! (`local`, `next`). On concrete field elements every asserted expression is a value; the
//! window satisfies the constraints when all these values are zero. A conditional assertion
//! (`when(c).assert_zero(x)`) contributes `c * x`, as a filtered constraint builder does.

use vstd::prelude::*;

use crate::constraints::ext_field::{QuadFeltAirBuilder, QuadFeltExpr, q, q_eq_values};
use crate::field::{Felt, fmul, fsub};

verus! {

/// The values of a sequence of field elements.
pub open spec fn vals(s: Seq<Felt>) -> Seq<int> {
    s.map_values(|f: Felt| f.val())
}

/// `x * (x - 1)`: the constraint that holds exactly on binary values.
pub open spec fn bool_check(x: int) -> int {
    fmul(x, fsub(x, 1))
}

/// Records the value of every constraint asserted on a window of the trace.
pub struct ConstraintEvaluator {
    /// Values of the periodic columns on the current row.
    pub periodic: Vec<Felt>,
    /// The transition selector of the row: nonzero on every row but the last.
    pub is_transition: Felt,
    /// The first-row selector: nonzero only on the first row.
    pub is_first_row: Felt,
    /// The last-row selector: nonzero only on the last row.
    pub is_last_row: Felt,
    /// The auxiliary-trace (bus) columns of the current row.
    pub aux: Vec<QuadFeltExpr<Felt>>,
    /// The auxiliary-trace (bus) columns of the next row.
    pub aux_next: Vec<QuadFeltExpr<Felt>>,
    /// The value of each asserted constraint, in assertion order.
    pub constraints: Vec<Felt>,
}

impl ConstraintEvaluator {
    /// The values of the asserted constraints.
    pub open spec fn values(&self) -> Seq<int> {
        vals(self.constraints@)
    }

    /// The values of the periodic columns.
    pub open spec fn periodic_vals(&self) -> Seq<int> {
        vals(self.periodic@)
    }

    /// Every asserted constraint vanishes.
    pub open spec fn satisfied(&self) -> bool {
        forall|i: int| 0 <= i < self.values().len() ==> #[trigger] self.values()[i] == 0
    }

    /// An evaluator with the given periodic values and row selectors, and no constraint yet.
    pub fn new(
        periodic: Vec<Felt>,
        is_transition: Felt,
        is_first_row: Felt,
        is_last_row: Felt,
    ) -> (r: Self)
        ensures
            r.periodic == periodic,
            r.is_transition == is_transition,
            r.is_first_row == is_first_row,
            r.is_last_row == is_last_row,
            r.aux@ == Seq::<QuadFeltExpr<Felt>>::empty(),
            r.aux_next@ == Seq::<QuadFeltExpr<Felt>>::empty(),
            r.values() == Seq::<int>::empty(),
    {
        let r = ConstraintEvaluator {
            periodic,
            is_transition,
            is_first_row,
            is_last_row,
            aux: Vec::new(),
            aux_next: Vec::new(),
            constraints: Vec::new(),
        };
        assert(r.values() =~= Seq::<int>::empty());
        r
    }

    /// Provides the auxiliary-trace (bus) columns of the current and the next row.
    pub fn set_permutation(&mut self, current: Vec<QuadFeltExpr<Felt>>, next: Vec<QuadFeltExpr<Felt>>)
        ensures
            final(self).periodic == old(self).periodic,
            final(self).is_transition == old(self).is_transition,
            final(self).is_first_row == old(self).is_first_row,
            final(self).is_last_row == old(self).is_last_row,
            final(self).aux == current,
            final(self).aux_next == next,
            final(self).values() == old(self).values(),
    {
        self.aux = current;
        self.aux_next = next;
    }

    /// Asserts that `x` is zero.
    pub fn assert_zero(&mut self, x: Felt)
        ensures
            final(self).periodic == old(self).periodic,
            final(self).is_transition == old(self).is_transition,
            final(self).is_first_row == old(self).is_first_row,
            final(self).is_last_row == old(self).is_last_row,
            final(self).aux == old(self).aux,
            final(self).aux_next == old(self).aux_next,
            final(self).values() == old(self).values().push(x.val()),
    {
        self.constraints.push(x);
        assert(self.values() =~= old(self).values().push(x.val()));
    }

    /// Asserts that `x` is zero where `condition` is nonzero: records `condition * x`.
    pub fn assert_zero_when(&mut self, condition: Felt, x: Felt)
        ensures
            final(self).periodic == old(self).periodic,
            final(self).is_transition == old(self).is_transition,
            final(self).is_first_row == old(self).is_first_row,
            final(self).is_last_row == old(self).is_last_row,
            final(self).aux == old(self).aux,
            final(self).aux_next == old(self).aux_next,
            final(self).values() == old(self).values().push(fmul(condition.val(), x.val())),
    {
        self.assert_zero(condition.mul(x));
    }

    /// Asserts `x == y` where `condition` is nonzero: records `condition * (x - y)`.
    pub fn assert_eq_when(&mut self, condition: Felt, x: Felt, y: Felt)
        ensures
            final(self).periodic == old(self).periodic,
            final(self).is_transition == old(self).is_transition,
            final(self).is_first_row == old(self).is_first_row,
            final(self).is_last_row == old(self).is_last_row,
            final(self).aux == old(self).aux,
            final(self).aux_next == old(self).aux_next,
            final(self).values() == old(self).values().push(
                fmul(condition.val(), fsub(x.val(), y.val())),
            ),
    {
        self.assert_zero_when(condition, x.sub(y));
    }

    /// Asserts that `x` is binary where `condition` is nonzero: records
    /// `condition * (x * (x - 1))`.
    pub fn assert_bool_when(&mut self, condition: Felt, x: Felt)
        ensures
            final(self).periodic == old(self).periodic,
            final(self).is_transition == old(self).is_transition,
            final(self).is_first_row == old(self).is_first_row,
            final(self).is_last_row == old(self).is_last_row,
            final(self).aux == old(self).aux,
            final(self).aux_next == old(self).aux_next,
            final(self).values() == old(self).values().push(
                fmul(condition.val(), bool_check(x.val())),
            ),
    {
        self.assert_zero_when(condition, x.mul(x.sub(Felt::one())));
    }

    /// Asserts `x == y` for extension elements where `condition` is nonzero: records
    /// `condition * (x - y)` for each of the two coordinates.
    pub fn assert_eq_ext_when(&mut self, condition: Felt, x: QuadFeltExpr<Felt>, y: QuadFeltExpr<Felt>)
        ensures
            final(self).periodic == old(self).periodic,
            final(self).is_transition == old(self).is_transition,
            final(self).is_first_row == old(self).is_first_row,
            final(self).is_last_row == old(self).is_last_row,
            final(self).aux == old(self).aux,
            final(self).aux_next == old(self).aux_next,
            final(self).values() == old(self).values() + q_eq_values(condition.val(), q(x), q(y)),
    {
        let ghost start = self.values();
        self.assert_eq_when(condition, x.0, y.0);
        self.assert_eq_when(condition, x.1, y.1);
        assert(self.values() =~= start + q_eq_values(condition.val(), q(x), q(y)));
    }

    /// Asserts that the extension element `x` is zero where `condition` is nonzero: records
    /// `condition * x` for each of the two coordinates.
    pub fn assert_zero_ext_when(&mut self, condition: Felt, x: QuadFeltExpr<Felt>)
        ensures
            final(self).periodic == old(self).periodic,
            final(self).is_transition == old(self).is_transition,
            final(self).is_first_row == old(self).is_first_row,
            final(self).is_last_row == old(self).is_last_row,
            final(self).aux == old(self).aux,
            final(self).aux_next == old(self).aux_next,
            final(self).values() == old(self).values().push(fmul(condition.val(), x.0.val())).push(
                fmul(condition.val(), x.1.val()),
            ),
    {
        self.assert_zero_when(condition, x.0);
        self.assert_zero_when(condition, x.1);
    }

    /// Returns whether every asserted constraint vanishes.
    pub fn is_satisfied(&self) -> (r: bool)
        ensures
            r == self.satisfied(),
    {
        let mut i: usize = 0;
        while i < self.constraints.len()
            invariant
                i <= self.constraints.len(),
                forall|j: int| 0 <= j < i ==> #[trigger] self.values()[j] == 0,
            decreases self.constraints.len() - i,
        {
            if !(self.constraints[i] == Felt::zero()) {
                assert(self.values()[i as int] != 0);
                return false;
            }
            i = i + 1;
        }
        true
    }
}

impl QuadFeltAirBuilder for ConstraintEvaluator {
    type Expr = Felt;

    /// Asserting `x == y` records the value `x - y` and changes nothing else.
    open spec fn eq_asserted(before: Self, x: Felt, y: Felt, after: Self) -> bool {
        &&& after.periodic == before.periodic
        &&& after.is_transition == before.is_transition
        &&& after.is_first_row == before.is_first_row
        &&& after.is_last_row == before.is_last_row
        &&& after.aux == before.aux
        &&& after.aux_next == before.aux_next
        &&& after.values() == before.values().push(fsub(x.val(), y.val()))
    }

    fn assert_eq(&mut self, x: Felt, y: Felt)
        ensures
            final(self).periodic == old(self).periodic,
            final(self).is_transition == old(self).is_transition,
            final(self).is_first_row == old(self).is_first_row,
            final(self).is_last_row == old(self).is_last_row,
            final(self).aux == old(self).aux,
            final(self).aux_next == old(self).aux_next,
            final(self).values() == old(self).values().push(fsub(x.val(), y.val())),
    {
        self.assert_zero(x.sub(y));
    }
}

} // verus!
