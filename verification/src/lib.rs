//! Column layouts, operation flags, constraint evaluation and bus encodings of the Miden VM
//! processor AIR, together with the node builder settings used by the test network.

pub mod constraints;
pub mod field;
pub mod node_builder;
pub mod operations;
pub mod trace;

use vstd::prelude::*;

use crate::constraints::decoder::bus::challenges_fit;
use crate::constraints::evaluator::vals;
use crate::constraints::ext_field::{QuadFeltExpr, q, q_mul, q_one};
use crate::field::Felt;
use crate::trace::bus_types::{BLOCK_HASH_TABLE, CHIPLETS_BUS};
use crate::trace::{Challenges, KERNEL_PROC_INIT_LABEL, MIN_STACK_DEPTH, WORD_SIZE};

verus! {

// REDUCED AUX VALUES HELPERS
// ================================================================================================

/// Why the public inputs cannot be reduced to bus boundary terms.
#[derive(Debug, Clone, Copy, PartialEq, Eq, Structural)]
pub enum ReductionError {
    /// Exactly one variable-length public input slice is expected; this many were given.
    VarLenSliceCount(usize),
    /// The kernel digest elements do not form whole words; this is their number.
    KernelDigestLength(usize),
}

/// The block hash table message of the root block: `[0, hash[0..4], 0, 0]`.
pub open spec fn program_hash_msg(ch: Challenges, h: Seq<int>) -> (int, int) {
    ch.msg(BLOCK_HASH_TABLE as int, seq![0, h[0], h[1], h[2], h[3], 0, 0])
}

/// The kernel ROM init message of a procedure digest: `[KERNEL_PROC_INIT_LABEL, digest[0..4]]`.
pub open spec fn kernel_proc_msg(ch: Challenges, d: Seq<int>) -> (int, int) {
    ch.msg(CHIPLETS_BUS as int, seq![KERNEL_PROC_INIT_LABEL as int, d[0], d[1], d[2], d[3]])
}

/// The product of the kernel init messages of the first `k` digests of `felts`, each digest
/// being four consecutive elements.
pub open spec fn kernel_reduced(ch: Challenges, felts: Seq<int>, k: nat) -> (int, int)
    decreases k,
{
    if k == 0 {
        q_one()
    } else {
        q_mul(
            kernel_reduced(ch, felts, (k - 1) as nat),
            kernel_proc_msg(ch, felts.subrange(4 * (k - 1), 4 * k as int)),
        )
    }
}

/// Builds the program-hash bus message for the block-hash table boundary term.
///
/// The root block is encoded as `[parent_id = 0, hash[0..4], is_first_child = 0,
/// is_loop_body = 0]`.
pub fn program_hash_message(challenges: &Challenges, program_hash: &[Felt; WORD_SIZE]) -> (r: QuadFeltExpr<Felt>)
    requires
        challenges_fit(*challenges),
    ensures
        q(r) == program_hash_msg(*challenges, vals(program_hash@)),
{
    let zero = Felt::zero();
    let elems = [zero, program_hash[0], program_hash[1], program_hash[2], program_hash[3], zero, zero];
    let r = challenges.encode(BLOCK_HASH_TABLE, &elems);
    assert(vals(elems@) =~= seq![
        0,
        vals(program_hash@)[0],
        vals(program_hash@)[1],
        vals(program_hash@)[2],
        vals(program_hash@)[3],
        0,
        0,
    ]);
    r
}

/// Builds the kernel procedure init message for the kernel ROM bus:
/// `[KERNEL_PROC_INIT_LABEL, digest[0..4]]`.
pub fn kernel_proc_message(challenges: &Challenges, digest: &[Felt; WORD_SIZE]) -> (r: QuadFeltExpr<Felt>)
    requires
        challenges_fit(*challenges),
    ensures
        q(r) == kernel_proc_msg(*challenges, vals(digest@)),
{
    let elems = [Felt::from_u8(KERNEL_PROC_INIT_LABEL), digest[0], digest[1], digest[2], digest[3]];
    let r = challenges.encode(CHIPLETS_BUS, &elems);
    assert(vals(elems@) =~= seq![
        KERNEL_PROC_INIT_LABEL as int,
        vals(digest@)[0],
        vals(digest@)[1],
        vals(digest@)[2],
        vals(digest@)[3],
    ]);
    r
}

/// Reduces kernel procedure digests from the variable-length public inputs into a multiset
/// product.
///
/// Expects exactly one variable-length public input slice containing all kernel digests as
/// concatenated elements (its length a multiple of `WORD_SIZE`).
pub fn kernel_reduced_from_var_len(
    challenges: &Challenges,
    var_len_public_inputs: &[Vec<Felt>],
) -> (r: Result<QuadFeltExpr<Felt>, ReductionError>)
    requires
        challenges_fit(*challenges),
    ensures
        var_len_public_inputs.len() != 1 ==> r == Err::<QuadFeltExpr<Felt>, ReductionError>(
            ReductionError::VarLenSliceCount(var_len_public_inputs.len()),
        ),
        var_len_public_inputs.len() == 1 && var_len_public_inputs@[0].len() % 4 != 0 ==> r
            == Err::<QuadFeltExpr<Felt>, ReductionError>(
            ReductionError::KernelDigestLength(var_len_public_inputs@[0].len()),
        ),
        var_len_public_inputs.len() == 1 && var_len_public_inputs@[0].len() % 4 == 0 ==> (
        r matches Ok(acc) && q(acc) == kernel_reduced(
            *challenges,
            vals(var_len_public_inputs@[0]@),
            (var_len_public_inputs@[0].len() / 4) as nat,
        )),
{
    if var_len_public_inputs.len() != 1 {
        return Err(ReductionError::VarLenSliceCount(var_len_public_inputs.len()));
    }
    let kernel_felts = &var_len_public_inputs[0];
    if kernel_felts.len() % WORD_SIZE != 0 {
        return Err(ReductionError::KernelDigestLength(kernel_felts.len()));
    }
    let ghost felts = vals(kernel_felts@);
    let num_words = kernel_felts.len() / WORD_SIZE;
    let mut acc = QuadFeltExpr::new(Felt::one(), Felt::zero());
    let mut k: usize = 0;
    while k < num_words
        invariant
            k <= num_words,
            num_words * 4 == kernel_felts.len(),
            felts == vals(kernel_felts@),
            challenges_fit(*challenges),
            q(acc) == kernel_reduced(*challenges, felts, k as nat),
        decreases num_words - k,
    {
        let word = [
            kernel_felts[4 * k],
            kernel_felts[4 * k + 1],
            kernel_felts[4 * k + 2],
            kernel_felts[4 * k + 3],
        ];
        let msg = kernel_proc_message(challenges, &word);
        proof {
            assert(vals(word@) =~= felts.subrange(4 * k as int, 4 * (k + 1) as int));
        }
        acc = acc.mul(msg);
        k = k + 1;
    }
    Ok(acc)
}

// PUBLIC VALUES
// ================================================================================================

/// Number of fixed-length public values for the Miden VM AIR.
///
/// Layout (40 elements in total):
///   [0..4]   program hash
///   [4..20]  stack inputs
///   [20..36] stack outputs
///   [36..40] precompile transcript state
pub const NUM_PUBLIC_VALUES: usize = 40;

/// The fixed-length public values: the program hash, the stack inputs, the stack outputs and
/// the precompile transcript state, in this order.
pub fn air_public_values(
    program_hash: &[Felt; WORD_SIZE],
    stack_inputs: &[Felt; MIN_STACK_DEPTH],
    stack_outputs: &[Felt; MIN_STACK_DEPTH],
    transcript_state: &[Felt; WORD_SIZE],
) -> (r: Vec<Felt>)
    ensures
        r@ == program_hash@ + stack_inputs@ + stack_outputs@ + transcript_state@,
        r.len() == NUM_PUBLIC_VALUES,
{
    let mut r: Vec<Felt> = Vec::new();
    append_all(&mut r, program_hash);
    append_all(&mut r, stack_inputs);
    append_all(&mut r, stack_outputs);
    append_all(&mut r, transcript_state);
    r
}

/// The kernel procedure digests as one flat sequence of elements (concatenated words).
pub fn kernel_digest_elements(digests: &[[Felt; WORD_SIZE]]) -> (r: Vec<Felt>)
    ensures
        r.len() == WORD_SIZE * digests.len(),
        forall|i: int, j: int|
            0 <= i < digests.len() && 0 <= j < WORD_SIZE ==> #[trigger] r@[WORD_SIZE * i + j]
                == digests@[i][j],
{
    let mut r: Vec<Felt> = Vec::new();
    let mut k: usize = 0;
    while k < digests.len()
        invariant
            k <= digests.len(),
            r.len() == WORD_SIZE * k,
            forall|i: int, j: int|
                0 <= i < k && 0 <= j < WORD_SIZE ==> #[trigger] r@[WORD_SIZE * i + j]
                    == digests@[i][j],
        decreases digests.len() - k,
    {
        let ghost before = r@;
        append_all(&mut r, &digests[k]);
        proof {
            assert forall|i: int, j: int|
                0 <= i < k + 1 && 0 <= j < WORD_SIZE implies #[trigger] r@[WORD_SIZE * i + j]
                == digests@[i][j] by {
                if i < k {
                    assert(r@[WORD_SIZE * i + j] == before[WORD_SIZE * i + j]);
                } else {
                    assert(WORD_SIZE * i + j == before.len() + j);
                }
            }
        }
        k = k + 1;
    }
    r
}

/// Appends every element of `values` to `out`.
fn append_all(out: &mut Vec<Felt>, values: &[Felt])
    ensures
        final(out)@ == old(out)@ + values@,
{
    let mut i: usize = 0;
    while i < values.len()
        invariant
            i <= values.len(),
            out@ == old(out)@ + values@.take(i as int),
        decreases values.len() - i,
    {
        out.push(values[i]);
        proof {
            assert(values@.take(i as int + 1) =~= values@.take(i as int).push(values@[i as int]));
        }
        i = i + 1;
    }
    proof {
        assert(values@.take(values.len() as int) =~= values@);
    }
}

} // verus!
