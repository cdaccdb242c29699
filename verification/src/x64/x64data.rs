//! Flag bits of an encoding variant, driving prefix and REX synthesis and
//! operand-encoding selection. The concrete per-mnemonic variant tables are
//! external configuration injected by the caller, not part of this crate.

use vstd::prelude::*;

verus! {

/// The instruction requires a VEX prefix.
pub const VEX_OP: u32 = 0x0000_0001;

/// The instruction requires an XOP prefix.
pub const XOP_OP: u32 = 0x0000_0002;

/// Operand-size driven width: 16-bit gets the operand-size prefix, 32-bit
/// nothing, 64-bit REX.W.
pub const AUTO_SIZE: u32 = 0x0000_0004;

/// As `AUTO_SIZE` but 32-bit operands are illegal and 64-bit needs nothing.
pub const AUTO_NO32: u32 = 0x0000_0008;

/// As `AUTO_SIZE` but 16-bit operands are illegal.
pub const AUTO_REXW: u32 = 0x0000_0010;

/// 128-bit gets nothing, 256-bit the VEX.L bit.
pub const AUTO_VEXL: u32 = 0x0000_0020;

/// Implies the operand-size prefix byte.
pub const WORD_SIZE: u32 = 0x0000_0040;

/// Implies REX.W/VEX.W/XOP.W.
pub const WITH_REXW: u32 = 0x0000_0080;

/// Implies VEX.L/XOP.L.
pub const WITH_VEXL: u32 = 0x0000_0100;

/// Mandatory prefix `0x66` (numerically the same bit as `WORD_SIZE`).
pub const PREF_66: u32 = 0x0000_0040;

/// Mandatory prefix `0x67`.
pub const PREF_67: u32 = 0x0000_0200;

/// Mandatory prefix `0xF0`.
pub const PREF_F0: u32 = 0x0000_0400;

/// Mandatory prefix `0xF2`.
pub const PREF_F2: u32 = 0x0000_0800;

/// Mandatory prefix `0xF3`.
pub const PREF_F3: u32 = 0x0000_1000;

/// A user `lock` prefix is valid with this instruction.
pub const LOCK: u32 = 0x0000_2000;

/// A user `rep` prefix is valid with this instruction.
pub const REP: u32 = 0x0000_4000;

/// A user `repe` prefix is valid with this instruction.
pub const REPE: u32 = 0x0000_8000;

/// A register argument is encoded in the last byte of the opcode.
pub const SHORT_ARG: u32 = 0x0001_0000;

/// Select the memory-first argument encoding order.
pub const ENC_MR: u32 = 0x0002_0000;

/// Select the vector argument encoding order.
pub const ENC_VM: u32 = 0x0004_0000;

} // verus!
