//! Opcodes: 7-bit codes, least significant bit first in the decoder's `op_bits`.
//!
//! - `0..64`: degree-7 operations (all seven bits discriminate);
//! - `64..80`: degree-6 u32 operations (even codes; `b0` is not read);
//! - `80..96`: degree-5 operations (flag built on the `extra[0]` column);
//! - `96..128`: degree-4 operations (every fourth code; flag built on `extra[1]`).

use vstd::prelude::*;

verus! {

pub const NOOP: u8 = 0b0000_0000;
pub const EQZ: u8 = 0b0000_0001;
pub const NEG: u8 = 0b0000_0010;
pub const INV: u8 = 0b0000_0011;
pub const INCR: u8 = 0b0000_0100;
pub const NOT: u8 = 0b0000_0101;
pub const MLOAD: u8 = 0b0000_0111;
pub const SWAP: u8 = 0b0000_1000;
pub const CALLER: u8 = 0b0000_1001;
pub const MOVUP2: u8 = 0b0000_1010;
pub const MOVDN2: u8 = 0b0000_1011;
pub const MOVUP3: u8 = 0b0000_1100;
pub const MOVDN3: u8 = 0b0000_1101;
pub const ADVPOPW: u8 = 0b0000_1110;
pub const EXPACC: u8 = 0b0000_1111;
pub const MOVUP4: u8 = 0b0001_0000;
pub const MOVDN4: u8 = 0b0001_0001;
pub const MOVUP5: u8 = 0b0001_0010;
pub const MOVDN5: u8 = 0b0001_0011;
pub const MOVUP6: u8 = 0b0001_0100;
pub const MOVDN6: u8 = 0b0001_0101;
pub const MOVUP7: u8 = 0b0001_0110;
pub const MOVDN7: u8 = 0b0001_0111;
pub const SWAPW: u8 = 0b0001_1000;
pub const EXT2MUL: u8 = 0b0001_1001;
pub const MOVUP8: u8 = 0b0001_1010;
pub const MOVDN8: u8 = 0b0001_1011;
pub const SWAPW2: u8 = 0b0001_1100;
pub const SWAPW3: u8 = 0b0001_1101;
pub const SWAPDW: u8 = 0b0001_1110;
pub const EMIT: u8 = 0b0001_1111;
pub const ASSERT: u8 = 0b0010_0000;
pub const EQ: u8 = 0b0010_0001;
pub const ADD: u8 = 0b0010_0010;
pub const MUL: u8 = 0b0010_0011;
pub const AND: u8 = 0b0010_0100;
pub const OR: u8 = 0b0010_0101;
pub const U32AND: u8 = 0b0010_0110;
pub const U32XOR: u8 = 0b0010_0111;
pub const FRIE2F4: u8 = 0b0010_1000;
pub const DROP: u8 = 0b0010_1001;
pub const CSWAP: u8 = 0b0010_1010;
pub const CSWAPW: u8 = 0b0010_1011;
pub const MLOADW: u8 = 0b0010_1100;
pub const MSTORE: u8 = 0b0010_1101;
pub const MSTOREW: u8 = 0b0010_1110;
pub const PAD: u8 = 0b0011_0000;
pub const DUP0: u8 = 0b0011_0001;
pub const DUP1: u8 = 0b0011_0010;
pub const DUP2: u8 = 0b0011_0011;
pub const DUP3: u8 = 0b0011_0100;
pub const DUP4: u8 = 0b0011_0101;
pub const DUP5: u8 = 0b0011_0110;
pub const DUP6: u8 = 0b0011_0111;
pub const DUP7: u8 = 0b0011_1000;
pub const DUP9: u8 = 0b0011_1001;
pub const DUP11: u8 = 0b0011_1010;
pub const DUP13: u8 = 0b0011_1011;
pub const DUP15: u8 = 0b0011_1100;
pub const ADVPOP: u8 = 0b0011_1101;
pub const SDEPTH: u8 = 0b0011_1110;
pub const CLK: u8 = 0b0011_1111;
pub const U32ADD: u8 = 0b0100_0000;
pub const U32SUB: u8 = 0b0100_0010;
pub const U32MUL: u8 = 0b0100_0100;
pub const U32DIV: u8 = 0b0100_0110;
pub const U32SPLIT: u8 = 0b0100_1000;
pub const U32ASSERT2: u8 = 0b0100_1010;
pub const U32ADD3: u8 = 0b0100_1100;
pub const U32MADD: u8 = 0b0100_1110;
pub const HPERM: u8 = 0b0101_0000;
pub const MPVERIFY: u8 = 0b0101_0001;
pub const PIPE: u8 = 0b0101_0010;
pub const MSTREAM: u8 = 0b0101_0011;
pub const SPLIT: u8 = 0b0101_0100;
pub const LOOP: u8 = 0b0101_0101;
pub const SPAN: u8 = 0b0101_0110;
pub const JOIN: u8 = 0b0101_0111;
pub const DYN: u8 = 0b0101_1000;
pub const HORNERBASE: u8 = 0b0101_1001;
pub const HORNEREXT: u8 = 0b0101_1010;
pub const PUSH: u8 = 0b0101_1011;
pub const DYNCALL: u8 = 0b0101_1100;
pub const EVALCIRCUIT: u8 = 0b0101_1101;
pub const LOGPRECOMPILE: u8 = 0b0101_1110;
pub const MRUPDATE: u8 = 0b0110_0000;
pub const CRYPTOSTREAM: u8 = 0b0110_0100;
pub const SYSCALL: u8 = 0b0110_1000;
pub const CALL: u8 = 0b0110_1100;
pub const END: u8 = 0b0111_0000;
pub const REPEAT: u8 = 0b0111_0100;
pub const RESPAN: u8 = 0b0111_1000;
pub const HALT: u8 = 0b0111_1100;

} // verus!
