# miden_air

The constraint system of the Miden VM processor AIR, written in Verus: the trace layout, the
operation flags, the main-trace constraints of the decoder, the stack and the chiplets, the bus
(auxiliary-trace) constraints of the decoder tables, the stack overflow table and the range
checker, and the boundary messages derived from the public inputs.

Constraints are evaluated on concrete windows of two rows over the Goldilocks field (and its
quadratic extension `u^2 = 7`). A `ConstraintEvaluator` records the value of every asserted
constraint; each `enforce_*` function states in its contract exactly which values it records,
as polynomials of the row entries. Proof functions (`lemma_*`) state what a window whose
constraints vanish looks like: one-hot operation flags, valid opcodes, bitwise AND/XOR cycles,
Poseidon2 rounds, ACE evaluation results, memory access modes, idle bus rows.

## Scope

The chiplets bus, the hash-kernel virtual table, the ACE wiring bus and the final check of
the bus boundary values are not part of this library. Their messages read constants that its
trace layout does not have: the log-precompile transcript label and the stack and helper
ranges of the LOGPRECOMPILE operands, the ACE instruction-id offsets, and the high and low
limbs of the memory word address (the memory columns here hold the word address as one
column). The constraints the library does cover do not depend on them.

## Layout

- `src/field.rs`: Goldilocks field elements and their residue arithmetic.
- `src/trace/`: trace widths, column offsets, chiplet bus labels, bus types and the
  `Challenges` that bus messages are encoded with.
- `src/operations/`: opcode values.
- `src/constraints/`: column layouts, the evaluator, the extension field, operation flags,
  and the constraints of each component (`decoder`, `stack`, `range`, `chiplets`, `bus`).
- `src/lib.rs`: boundary messages and public-value layouts.
- `src/node_builder.rs`: settings of the local test node.
- `app/`: the public inputs as `miden_core` values, with their serialization.
- `tests/`: tests on concrete rows and values.
