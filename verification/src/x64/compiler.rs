//! Instruction encoder. Given a mnemonic's candidate encoding variants — an
//! injectable table of flag bits, opcode bytes, an opcode-extension digit and
//! operand shapes — the encoder selects the first variant whose shapes match
//! the given operands and appends the encoded statements to the buffer, in
//! prefix, opcode, ModRM/SIB, displacement, immediate order. A jump-target
//! operand reserves its displacement field with a placeholder immediate and
//! marks it for the resolver with a `ForwardJumpTarget` statement.
//!
//! Legacy variants synthesize their mandatory prefixes and a REX byte as the
//! flags and operands demand; VEX- and XOP-flagged variants synthesize the
//! three-byte `C4`/`8F` prefix instead, with the implied legacy prefix folded
//! into its `pp` field, wideness into `W` and the vector length into `L`.
//! Memory references are encoded with ModRM and, for a scaled index or a
//! stack-pointer base, a SIB byte; displacements are always written in their
//! 32-bit form.

use crate::x64::assembler::buf_view;
use crate::x64::assembler::Stmt;
use crate::x64::assembler::StmtBuffer;
use crate::x64::assembler::StmtV;
use crate::x64::parser::Arg;
use crate::x64::parser::Ident;
use crate::x64::parser::ImmediateValue;
use crate::x64::parser::JumpType;
use crate::x64::parser::RegFamily;
use crate::x64::parser::Register;
use crate::x64::parser::Size;
use crate::x64::x64data;
use vstd::prelude::*;

verus! {

/// An operand-shape constraint of one encoding variant.
#[derive(Debug, Clone, Copy, PartialEq, Eq, Structural)]
pub enum OpShape {
    /// A direct register of the given width, encoded in the ModRM reg field
    /// (or in the opcode's last byte under `SHORT_ARG`).
    Reg(Size),
    /// A register-or-memory operand of the given width, encoded in the ModRM
    /// rm field.
    RegMem(Size),
    /// An immediate of the given encoded width.
    Imm(Size),
    /// A relative jump target of the given displacement width.
    JumpRel(Size),
}

/// One encoding variant of a mnemonic. For a VEX- or XOP-flagged variant
/// the first opcode byte is the opcode-map select; the rest are the opcode.
pub struct Opdata {
    pub ops: Vec<u8>,
    pub reg: u8,
    pub flags: u32,
    pub args: Vec<OpShape>,
}

#[verifier::ext_equal]
pub struct OpdataV {
    pub ops: Seq<u8>,
    pub reg: u8,
    pub flags: u32,
    pub args: Seq<OpShape>,
}

impl View for Opdata {
    type V = OpdataV;

    open spec fn view(&self) -> OpdataV {
        OpdataV { ops: self.ops@, reg: self.reg, flags: self.flags, args: self.args@ }
    }
}

/// Fatal encoding failures: invalid code-generation requests, each naming
/// what was asked for.
#[derive(Debug, Clone, PartialEq, Eq)]
pub enum EncodeError {
    /// No variant's operand count and shapes match the given operands;
    /// carries the mnemonic.
    NoMatchingVariant(Ident),
    /// A prefix name the encoder does not know, or one the variant's flags
    /// do not permit; carries the prefix.
    InvalidPrefix(Ident),
    /// An operand form no x86-64 encoding exists for (a scale outside
    /// 1/2/4/8, the stack pointer as index, a scaled index beside a
    /// rip-relative base, an unsigned displacement, a named non-local jump);
    /// carries the mnemonic.
    UnsupportedOperand(Ident),
}

/// The encoding failure with its name abstracted to a character sequence.
pub enum EncodeErrorV {
    NoMatchingVariant(Seq<char>),
    InvalidPrefix(Seq<char>),
    UnsupportedOperand(Seq<char>),
}

impl View for EncodeError {
    type V = EncodeErrorV;

    open spec fn view(&self) -> EncodeErrorV {
        match self {
            EncodeError::NoMatchingVariant(n) => EncodeErrorV::NoMatchingVariant(n@),
            EncodeError::InvalidPrefix(p) => EncodeErrorV::InvalidPrefix(p@),
            EncodeError::UnsupportedOperand(n) => EncodeErrorV::UnsupportedOperand(n@),
        }
    }
}

/// Does one operand fit one shape?
pub open spec fn spec_arg_matches(a: Arg, s: OpShape) -> bool {
    match s {
        OpShape::Reg(sz) => a matches Arg::Direct(r) && r.size == sz,
        OpShape::RegMem(sz) => (a matches Arg::Direct(r) && r.size == sz) || (a matches
            Arg::Indirect(m) && (m.size is None || m.size == Some(sz))) || a matches
            Arg::IndirectJumpTarget(_, _),
        OpShape::Imm(_) => a matches Arg::Immediate(_, _),
        OpShape::JumpRel(_) => a matches Arg::JumpTarget(_, _),
    }
}

pub open spec fn count_shape_reg(shapes: Seq<OpShape>) -> int
    decreases shapes.len(),
{
    if shapes.len() == 0 {
        0
    } else {
        (if shapes[0] is Reg {
            1int
        } else {
            0int
        }) + count_shape_reg(shapes.skip(1))
    }
}

pub open spec fn count_shape_rm(shapes: Seq<OpShape>) -> int
    decreases shapes.len(),
{
    if shapes.len() == 0 {
        0
    } else {
        (if shapes[0] is RegMem {
            1int
        } else {
            0int
        }) + count_shape_rm(shapes.skip(1))
    }
}

/// Does a variant match an operand list: same count, each operand fits its
/// shape, and at most one register and one register-or-memory slot (the
/// forms a single ModRM byte can encode).
pub open spec fn spec_variant_matches(d: OpdataV, args: Seq<Arg>) -> bool {
    &&& d.args.len() == args.len()
    &&& (forall|i: int| 0 <= i < args.len() ==> spec_arg_matches(args[i], #[trigger] d.args[i]))
    &&& count_shape_reg(d.args) <= 1
    &&& count_shape_rm(d.args) <= 1
}

/// The first matching variant.
pub open spec fn spec_find_variant(data: Seq<OpdataV>, args: Seq<Arg>) -> Option<OpdataV>
    decreases data.len(),
{
    if data.len() == 0 {
        None
    } else if spec_variant_matches(data[0], args) {
        Some(data[0])
    } else {
        spec_find_variant(data.skip(1), args)
    }
}

pub open spec fn lock_name() -> Seq<u8> {
    seq![0x6cu8, 0x6fu8, 0x63u8, 0x6bu8]  // "lock"
}

pub open spec fn rep_name() -> Seq<u8> {
    seq![0x72u8, 0x65u8, 0x70u8]  // "rep"
}

pub open spec fn repe_name() -> Seq<u8> {
    seq![0x72u8, 0x65u8, 0x70u8, 0x65u8]  // "repe"
}

pub open spec fn repne_name() -> Seq<u8> {
    seq![0x72u8, 0x65u8, 0x70u8, 0x6eu8, 0x65u8]  // "repne"
}

/// The byte a user prefix encodes to, when the variant's flags permit it.
pub open spec fn spec_prefix_byte(name: Seq<char>, flags: u32) -> Option<u8> {
    let nb = crate::coff::name_bytes(name);
    if nb == lock_name() && flags & x64data::LOCK != 0 {
        Some(0xF0u8)
    } else if nb == rep_name() && flags & x64data::REP != 0 {
        Some(0xF3u8)
    } else if nb == repe_name() && flags & x64data::REPE != 0 {
        Some(0xF3u8)
    } else if nb == repne_name() && flags & x64data::REPE != 0 {
        Some(0xF2u8)
    } else {
        None
    }
}

/// The user prefixes, in order, as `Const` statements; an unknown or
/// refused prefix fails, named.
pub open spec fn spec_user_prefixes(names: Seq<Seq<char>>, flags: u32) -> Result<
    Seq<StmtV>,
    EncodeErrorV,
>
    decreases names.len(),
{
    if names.len() == 0 {
        Ok(Seq::empty())
    } else {
        match spec_prefix_byte(names[0], flags) {
            Some(b) => match spec_user_prefixes(names.skip(1), flags) {
                Ok(rest) => Ok(seq![StmtV::Const(b)] + rest),
                Err(e) => Err(e),
            },
            None => Err(EncodeErrorV::InvalidPrefix(names[0])),
        }
    }
}

/// The mandatory prefix bytes a variant's flags imply, in a fixed order.
pub open spec fn spec_mandatory_prefixes(flags: u32) -> Seq<StmtV> {
    (if flags & x64data::PREF_66 != 0 {
        seq![StmtV::Const(0x66u8)]
    } else {
        Seq::empty()
    }) + (if flags & x64data::PREF_67 != 0 {
        seq![StmtV::Const(0x67u8)]
    } else {
        Seq::empty()
    }) + (if flags & x64data::PREF_F0 != 0 {
        seq![StmtV::Const(0xF0u8)]
    } else {
        Seq::empty()
    }) + (if flags & x64data::PREF_F2 != 0 {
        seq![StmtV::Const(0xF2u8)]
    } else {
        Seq::empty()
    }) + (if flags & x64data::PREF_F3 != 0 {
        seq![StmtV::Const(0xF3u8)]
    } else {
        Seq::empty()
    })
}

/// The width class the variant's automatic sizing looks at: the width of
/// its first register or register-or-memory shape.
pub open spec fn spec_op_size(shapes: Seq<OpShape>) -> Option<Size>
    decreases shapes.len(),
{
    if shapes.len() == 0 {
        None
    } else {
        match shapes[0] {
            OpShape::Reg(sz) => Some(sz),
            OpShape::RegMem(sz) => Some(sz),
            _ => spec_op_size(shapes.skip(1)),
        }
    }
}

/// The first operand standing in a `Reg` shape, if any.
pub open spec fn spec_reg_operand(args: Seq<Arg>, shapes: Seq<OpShape>) -> Option<Register>
    decreases shapes.len(),
{
    if shapes.len() == 0 || args.len() == 0 {
        None
    } else {
        match (shapes[0], args[0]) {
            (OpShape::Reg(_), Arg::Direct(r)) => Some(r),
            _ => spec_reg_operand(args.skip(1), shapes.skip(1)),
        }
    }
}

/// The first operand standing in a `RegMem` shape, if any.
pub open spec fn spec_rm_operand(args: Seq<Arg>, shapes: Seq<OpShape>) -> Option<Arg>
    decreases shapes.len(),
{
    if shapes.len() == 0 || args.len() == 0 {
        None
    } else if shapes[0] is RegMem {
        Some(args[0])
    } else {
        spec_rm_operand(args.skip(1), shapes.skip(1))
    }
}

/// The 16-bit operand-size prefix, for automatically sized variants used at
/// word width.
pub open spec fn spec_auto_prefix(flags: u32, op_size: Option<Size>) -> Seq<StmtV> {
    if flags & (x64data::AUTO_SIZE | x64data::AUTO_NO32) != 0 && op_size == Some(Size::WORD) {
        seq![StmtV::Const(0x66u8)]
    } else {
        Seq::empty()
    }
}

/// Does this operand need the REX.B extension bit in the rm or opcode
/// position?
pub open spec fn spec_rm_extended(a: Arg) -> bool {
    match a {
        Arg::Direct(r) => r.kind.spec_extended(),
        Arg::Indirect(m) => match m.base {
            Some(b) => b.kind.spec_extended(),
            None => false,
        },
        _ => false,
    }
}

/// The REX/VEX `W` bit: a wide operation, from the explicit flag or the
/// automatic 64-bit sizing.
pub open spec fn spec_bit_w(flags: u32, op_size: Option<Size>) -> u8 {
    if flags & x64data::WITH_REXW != 0 || (flags & (x64data::AUTO_SIZE | x64data::AUTO_REXW) != 0
        && op_size == Some(Size::QWORD)) {
        1
    } else {
        0
    }
}

/// The `R` extension bit: the ModRM reg field's register, where a ModRM
/// byte exists.
pub open spec fn spec_bit_r(args: Seq<Arg>, shapes: Seq<OpShape>) -> u8 {
    match (spec_rm_operand(args, shapes), spec_reg_operand(args, shapes)) {
        (Some(_), Some(reg)) => if reg.kind.spec_extended() {
            1
        } else {
            0
        },
        _ => 0,
    }
}

/// The `X` extension bit: the memory operand's scaled-index register.
pub open spec fn spec_bit_x(args: Seq<Arg>, shapes: Seq<OpShape>) -> u8 {
    match spec_rm_operand(args, shapes) {
        Some(a) => match a {
            Arg::Indirect(m) => match m.index {
                Some(ix) => if ix.kind.spec_extended() {
                    1
                } else {
                    0
                },
                None => 0,
            },
            _ => 0,
        },
        None => 0,
    }
}

/// The `B` extension bit: the rm operand's register or memory base, or the
/// short-form opcode register.
pub open spec fn spec_bit_b(flags: u32, args: Seq<Arg>, shapes: Seq<OpShape>) -> u8 {
    match spec_rm_operand(args, shapes) {
        Some(a) => if spec_rm_extended(a) {
            1
        } else {
            0
        },
        None => match (flags & x64data::SHORT_ARG != 0, spec_reg_operand(args, shapes)) {
            (true, Some(reg)) => if reg.kind.spec_extended() {
                1
            } else {
                0
            },
            _ => 0,
        },
    }
}

/// The REX byte the variant and operands need, or nothing.
pub open spec fn spec_rex(flags: u32, op_size: Option<Size>, args: Seq<Arg>, shapes: Seq<OpShape>) -> Seq<
    StmtV,
> {
    let w = spec_bit_w(flags, op_size);
    let r = spec_bit_r(args, shapes);
    let x = spec_bit_x(args, shapes);
    let b = spec_bit_b(flags, args, shapes);
    if w != 0 || r != 0 || x != 0 || b != 0 {
        seq![StmtV::Const((0x40 + w * 8 + r * 4 + x * 2 + b) as u8)]
    } else {
        Seq::empty()
    }
}

/// The three-byte VEX (`C4`) or XOP (`8F`) prefix. A VEX/XOP variant's
/// first table byte selects the opcode map; the source-register field is
/// left empty (`0b1111` — the operand shapes carry no second source); the
/// implied legacy prefix stands in `pp`, wideness in `W`, the vector length
/// in `L`, and the operand extension bits in inverted `R`/`X`/`B`.
pub open spec fn spec_vex_prefix(d: OpdataV, args: Seq<Arg>) -> Seq<StmtV> {
    let osz = spec_op_size(d.args);
    let b0: u8 = if d.flags & x64data::XOP_OP != 0 {
        0x8F
    } else {
        0xC4
    };
    let map: u8 = if d.ops.len() > 0 {
        (d.ops[0] % 32) as u8
    } else {
        1
    };
    let w = spec_bit_w(d.flags, osz);
    let r = spec_bit_r(args, d.args);
    let x = spec_bit_x(args, d.args);
    let b = spec_bit_b(d.flags, args, d.args);
    let l: u8 = if d.flags & x64data::WITH_VEXL != 0 || (d.flags & x64data::AUTO_VEXL != 0 && osz
        == Some(Size::HWORD)) {
        1
    } else {
        0
    };
    let pp: u8 = if d.flags & x64data::PREF_66 != 0 {
        1
    } else if d.flags & x64data::PREF_F3 != 0 {
        2
    } else if d.flags & x64data::PREF_F2 != 0 {
        3
    } else {
        0
    };
    seq![
        StmtV::Const(b0),
        StmtV::Const(((1 - r) * 128 + (1 - x) * 64 + (1 - b) * 32 + map) as u8),
        StmtV::Const((w * 128 + 0x78 + l * 4 + pp) as u8),
    ]
}

/// The register code encoded into a ModRM field or the opcode's last byte:
/// the low three bits.
pub open spec fn spec_low3(code: u8) -> u8 {
    (code % 8) as u8
}

/// Byte addition that wraps at 256, as adding a register code into an
/// opcode byte does.
pub open spec fn spec_add8(a: u8, b: u8) -> u8 {
    if a + b > 255 {
        (a + b - 256) as u8
    } else {
        (a + b) as u8
    }
}

/// A VEX/XOP variant's opcode bytes: the table bytes past the leading map
/// byte.
pub open spec fn vex_ops(ops: Seq<u8>) -> Seq<u8> {
    if ops.len() > 0 {
        ops.skip(1)
    } else {
        ops
    }
}

/// The opcode bytes; under `SHORT_ARG` the register operand's low code bits
/// are added into the last byte. A VEX/XOP variant passes its table bytes
/// with the leading map byte stripped.
pub open spec fn spec_opcode_from(ops: Seq<u8>, flags: u32, args: Seq<Arg>, shapes: Seq<OpShape>) -> Seq<
    StmtV,
> {
    if flags & x64data::SHORT_ARG != 0 && ops.len() > 0 {
        let last = ops.last();
        let code = match spec_reg_operand(args, shapes) {
            Some(reg) => spec_low3(reg.kind.spec_code()->Some_0),
            None => 0,
        };
        ops.take(ops.len() - 1).map_values(|b: u8| StmtV::Const(b)) + seq![
            StmtV::Const(spec_add8(last, code)),
        ]
    } else {
        ops.map_values(|b: u8| StmtV::Const(b))
    }
}

/// A ModRM byte from its three fields.
pub open spec fn spec_modrm(md: u8, reg: u8, rm: u8) -> u8 {
    (md * 64 + reg * 8 + rm) as u8
}

/// A SIB byte from its scale bits, index code and base code.
pub open spec fn spec_sib(ss: u8, ix: u8, base: u8) -> u8 {
    (ss * 64 + ix * 8 + base) as u8
}

/// The scale field's two bits for a scale of 1, 2, 4 or 8.
pub open spec fn spec_scale_bits(scale: isize) -> u8 {
    if scale == 1 {
        0
    } else if scale == 2 {
        1
    } else if scale == 4 {
        2
    } else {
        3
    }
}

/// The ModRM byte, any SIB byte, and any displacement for the
/// register-or-memory operand; empty when the variant has none. A
/// scaled-index reference takes the SIB form; operand forms no x86-64
/// encoding exists for fail, naming the mnemonic.
pub open spec fn spec_modrm_stmts(name: Seq<char>, d: OpdataV, args: Seq<Arg>) -> Result<
    Seq<StmtV>,
    EncodeErrorV,
> {
    match spec_rm_operand(args, d.args) {
        None => Ok(Seq::empty()),
        Some(rm_arg) => {
            let regf = match spec_reg_operand(args, d.args) {
                Some(reg) => spec_low3(reg.kind.spec_code()->Some_0),
                None => spec_low3(d.reg),
            };
            match rm_arg {
                Arg::Direct(r) => Ok(
                    seq![StmtV::Const(spec_modrm(3, regf, spec_low3(r.kind.spec_code()->Some_0)))],
                ),
                Arg::Indirect(m) => if m.disp matches Some(ImmediateValue::U64(_)) {
                    Err(EncodeErrorV::UnsupportedOperand(name))
                } else {
                    let disp: i64 = match m.disp {
                        None => 0,
                        Some(ImmediateValue::I64(x)) => x,
                        Some(ImmediateValue::U64(_)) => 0,
                    };
                    match m.index {
                        None => match m.base {
                            Some(b) => if b.kind.spec_family() == RegFamily::RIP {
                                Ok(
                                    seq![
                                        StmtV::Const(spec_modrm(0, regf, 5)),
                                        StmtV::Var(ImmediateValue::I64(disp), Size::DWORD),
                                    ],
                                )
                            } else {
                                let rmf = spec_low3(b.kind.spec_code()->Some_0);
                                (if rmf == 4 {
                                    Ok(
                                        seq![
                                            StmtV::Const(spec_modrm(2, regf, 4)),
                                            StmtV::Const(0x24u8),
                                            StmtV::Var(ImmediateValue::I64(disp), Size::DWORD),
                                        ],
                                    )
                                } else {
                                    Ok(
                                        seq![
                                            StmtV::Const(spec_modrm(2, regf, rmf)),
                                            StmtV::Var(ImmediateValue::I64(disp), Size::DWORD),
                                        ],
                                    )
                                })
                            },
                            None => Ok(
                                seq![
                                    StmtV::Const(spec_modrm(0, regf, 4)),
                                    StmtV::Const(0x25u8),
                                    StmtV::Var(ImmediateValue::I64(disp), Size::DWORD),
                                ],
                            ),
                        },
                        Some(ix) => if !(m.scale == 1 || m.scale == 2 || m.scale == 4 || m.scale
                            == 8) {
                            Err(EncodeErrorV::UnsupportedOperand(name))
                        } else if spec_low3(ix.kind.spec_code()->Some_0) == 4
                            && !ix.kind.spec_extended() {
                            // the stack pointer cannot be an index
                            Err(EncodeErrorV::UnsupportedOperand(name))
                        } else {
                            let ss = spec_scale_bits(m.scale);
                            let ixf = spec_low3(ix.kind.spec_code()->Some_0);
                            match m.base {
                                Some(b) => if b.kind.spec_family() == RegFamily::RIP {
                                    Err(EncodeErrorV::UnsupportedOperand(name))
                                } else {
                                    Ok(
                                        seq![
                                            StmtV::Const(spec_modrm(2, regf, 4)),
                                            StmtV::Const(
                                                spec_sib(
                                                    ss,
                                                    ixf,
                                                    spec_low3(b.kind.spec_code()->Some_0),
                                                ),
                                            ),
                                            StmtV::Var(ImmediateValue::I64(disp), Size::DWORD),
                                        ],
                                    )
                                },
                                None => Ok(
                                    seq![
                                        StmtV::Const(spec_modrm(0, regf, 4)),
                                        StmtV::Const(spec_sib(ss, ixf, 5)),
                                        StmtV::Var(ImmediateValue::I64(disp), Size::DWORD),
                                    ],
                                ),
                            }
                        },
                    }
                },
                Arg::IndirectJumpTarget(jt, _) => match jt {
                    JumpType::Forward(t) => Ok(
                        seq![
                            StmtV::Const(spec_modrm(0, regf, 5)),
                            StmtV::Var(ImmediateValue::I64(0), Size::DWORD),
                            StmtV::ForwardJumpTarget(t, Size::DWORD),
                        ],
                    ),
                    _ => Err(EncodeErrorV::UnsupportedOperand(name)),
                },
                _ => Err(EncodeErrorV::UnsupportedOperand(name)),
            }
        },
    }
}

/// The trailing immediates and relative-jump fields, in operand order: an
/// immediate becomes a sized `Var`; a jump target reserves a placeholder
/// `Var` and marks its end with `ForwardJumpTarget`.
pub open spec fn spec_tail_stmts(name: Seq<char>, args: Seq<Arg>, shapes: Seq<OpShape>) -> Result<
    Seq<StmtV>,
    EncodeErrorV,
>
    decreases shapes.len(),
{
    if shapes.len() == 0 || args.len() == 0 {
        Ok(Seq::empty())
    } else {
        let head: Result<Seq<StmtV>, EncodeErrorV> = match shapes[0] {
            OpShape::Imm(sz) => match args[0] {
                Arg::Immediate(v, _) => Ok(seq![StmtV::Var(v, sz)]),
                _ => Err(EncodeErrorV::UnsupportedOperand(name)),
            },
            OpShape::JumpRel(sz) => match args[0] {
                Arg::JumpTarget(JumpType::Forward(t), _) => Ok(
                    seq![
                        StmtV::Var(ImmediateValue::I64(0), sz),
                        StmtV::ForwardJumpTarget(t, sz),
                    ],
                ),
                _ => Err(EncodeErrorV::UnsupportedOperand(name)),
            },
            _ => Ok(Seq::empty()),
        };
        match head {
            Err(e) => Err(e),
            Ok(h) => match spec_tail_stmts(name, args.skip(1), shapes.skip(1)) {
                Err(e) => Err(e),
                Ok(rest) => Ok(h + rest),
            },
        }
    }
}

/// Everything one matched variant encodes to: a VEX/XOP variant gets the
/// three-byte prefix and its opcode bytes past the map byte; a legacy
/// variant gets its mandatory and automatic prefixes and a REX byte.
pub open spec fn spec_encode_variant(
    name: Seq<char>,
    pviews: Seq<Seq<char>>,
    args: Seq<Arg>,
    d: OpdataV,
) -> Result<Seq<StmtV>, EncodeErrorV> {
    match spec_user_prefixes(pviews, d.flags) {
        Err(e) => Err(e),
        Ok(user) => {
            let osz = spec_op_size(d.args);
            match spec_modrm_stmts(name, d, args) {
                Err(e) => Err(e),
                Ok(modrm) => match spec_tail_stmts(name, args, d.args) {
                    Err(e) => Err(e),
                    Ok(tail) => if d.flags & (x64data::VEX_OP | x64data::XOP_OP) != 0 {
                        Ok(
                            user + spec_vex_prefix(d, args) + spec_opcode_from(
                                vex_ops(d.ops),
                                d.flags,
                                args,
                                d.args,
                            ) + modrm + tail,
                        )
                    } else {
                        Ok(
                            user + spec_mandatory_prefixes(d.flags) + spec_auto_prefix(
                                d.flags,
                                osz,
                            ) + spec_rex(d.flags, osz, args, d.args) + spec_opcode_from(
                                d.ops,
                                d.flags,
                                args,
                                d.args,
                            ) + modrm + tail,
                        )
                    },
                },
            }
        },
    }
}

/// What `compile_op` appends: the first matching variant's encoding, or the
/// failure naming what was asked for.
pub open spec fn spec_compile(
    name: Seq<char>,
    pviews: Seq<Seq<char>>,
    args: Seq<Arg>,
    data: Seq<OpdataV>,
) -> Result<Seq<StmtV>, EncodeErrorV> {
    match spec_find_variant(data, args) {
        None => Err(EncodeErrorV::NoMatchingVariant(name)),
        Some(d) => spec_encode_variant(name, pviews, args, d),
    }
}

/// The prefix strings a `compile_op` call works from.
pub open spec fn prefix_views(prefixes: Seq<Ident>) -> Seq<Seq<char>> {
    prefixes.map_values(|p: Ident| p@)
}

/// The views of a variant table.
pub open spec fn opdata_views(data: Seq<Opdata>) -> Seq<OpdataV> {
    data.map_values(|d: Opdata| d@)
}

fn bytes_eq(a: &[u8], b: &[u8]) -> (r: bool)
    ensures
        r == (a@ == b@),
{
    if a.len() != b.len() {
        proof {
            assert(a@ != b@);
        }
        return false;
    }
    let mut i: usize = 0;
    while i < a.len()
        invariant
            i <= a@.len(),
            a@.len() == b@.len(),
            forall|k: int| 0 <= k < i ==> a@[k] == b@[k],
        decreases a@.len() - i,
    {
        if a[i] != b[i] {
            proof {
                assert(a@ != b@);
            }
            return false;
        }
        i = i + 1;
    }
    proof {
        assert(a@ =~= b@);
    }
    true
}

fn arg_matches(a: &Arg, s: &OpShape) -> (r: bool)
    ensures
        r == spec_arg_matches(*a, *s),
{
    match s {
        OpShape::Reg(sz) => match a {
            Arg::Direct(reg) => reg.size == *sz,
            _ => false,
        },
        OpShape::RegMem(sz) => match a {
            Arg::Direct(reg) => reg.size == *sz,
            Arg::Indirect(m) => match m.size {
                None => true,
                Some(msz) => msz == *sz,
            },
            Arg::IndirectJumpTarget(_, _) => true,
            _ => false,
        },
        OpShape::Imm(_) => match a {
            Arg::Immediate(_, _) => true,
            _ => false,
        },
        OpShape::JumpRel(_) => match a {
            Arg::JumpTarget(_, _) => true,
            _ => false,
        },
    }
}

fn variant_matches(d: &Opdata, args: &Vec<Arg>) -> (r: bool)
    ensures
        r == spec_variant_matches(d@, args@),
{
    if d.args.len() != args.len() {
        return false;
    }
    let mut i: usize = 0;
    let mut creg: usize = 0;
    let mut crm: usize = 0;
    proof {
        assert(d@.args.skip(0) =~= d@.args);
    }
    while i < args.len()
        invariant
            i <= args@.len(),
            d@.args.len() == args@.len(),
            creg <= i,
            crm <= i,
            forall|k: int| 0 <= k < i ==> spec_arg_matches(args@[k], #[trigger] d@.args[k]),
            count_shape_reg(d@.args) == creg + count_shape_reg(d@.args.skip(i as int)),
            count_shape_rm(d@.args) == crm + count_shape_rm(d@.args.skip(i as int)),
        decreases args@.len() - i,
    {
        proof {
            assert(d@.args.skip(i as int)[0] == d@.args[i as int]);
            assert(d@.args.skip(i as int).skip(1) =~= d@.args.skip(i as int + 1));
        }
        if !arg_matches(&args[i], &d.args[i]) {
            return false;
        }
        match d.args[i] {
            OpShape::Reg(_) => {
                creg = creg + 1;
            },
            OpShape::RegMem(_) => {
                crm = crm + 1;
            },
            _ => {},
        }
        i = i + 1;
    }
    proof {
        assert(d@.args.skip(i as int) =~= Seq::<OpShape>::empty());
    }
    creg <= 1 && crm <= 1
}

fn find_variant(data: &[Opdata], args: &Vec<Arg>) -> (r: Option<usize>)
    ensures
        match r {
            Some(i) => i < data@.len() && spec_find_variant(
                opdata_views(data@),
                args@,
            ) == Some(data@[i as int]@),
            None => spec_find_variant(opdata_views(data@), args@) is None,
        },
{
    let ghost dv = opdata_views(data@);
    let mut i: usize = 0;
    proof {
        assert(dv.skip(0) =~= dv);
    }
    while i < data.len()
        invariant
            i <= data@.len(),
            dv == opdata_views(data@),
            dv.len() == data@.len(),
            spec_find_variant(dv, args@) == spec_find_variant(dv.skip(i as int), args@),
        decreases data@.len() - i,
    {
        proof {
            assert(dv.skip(i as int)[0] == dv[i as int]);
            assert(dv.skip(i as int).skip(1) =~= dv.skip(i as int + 1));
            assert(dv[i as int] == data@[i as int]@);
        }
        if variant_matches(&data[i], args) {
            return Some(i);
        }
        i = i + 1;
    }
    proof {
        assert(dv.skip(i as int) =~= Seq::<OpdataV>::empty());
    }
    None
}

/// The user-prefix bytes, or the first invalid prefix.
fn user_prefix_bytes(prefixes: &Vec<Ident>, flags: u32) -> (r: Result<Vec<u8>, EncodeError>)
    ensures
        match r {
            Ok(bs) => spec_user_prefixes(prefix_views(prefixes@), flags) == Ok::<
                Seq<StmtV>,
                EncodeErrorV,
            >(bs@.map_values(|b: u8| StmtV::Const(b))),
            Err(e) => spec_user_prefixes(prefix_views(prefixes@), flags) == Err::<
                Seq<StmtV>,
                EncodeErrorV,
            >(e@),
        },
{
    let ghost names = prefix_views(prefixes@);
    let mut out: Vec<u8> = Vec::new();
    let mut i: usize = 0;
    proof {
        assert(names.skip(0) =~= names);
    }
    while i < prefixes.len()
        invariant
            i <= prefixes@.len(),
            names == prefix_views(prefixes@),
            names.len() == prefixes@.len(),
            spec_user_prefixes(names, flags) == (match spec_user_prefixes(
                names.skip(i as int),
                flags,
            ) {
                Ok(rest) => Ok::<Seq<StmtV>, EncodeErrorV>(
                    out@.map_values(|b: u8| StmtV::Const(b)) + rest,
                ),
                Err(e) => Err(e),
            }),
        decreases prefixes@.len() - i,
    {
        proof {
            assert(names.skip(i as int)[0] == names[i as int]);
            assert(names.skip(i as int).skip(1) =~= names.skip(i as int + 1));
            assert(names[i as int] == prefixes@[i as int]@);
        }
        let pb = prefixes[i].as_str().as_bytes();
        proof {
            assert(pb@ == crate::coff::name_bytes(names[i as int]));
        }
        let b: u8 = if bytes_eq(pb, &[0x6c, 0x6f, 0x63, 0x6b]) {
            if flags & x64data::LOCK != 0 {
                0xF0
            } else {
                return Err(EncodeError::InvalidPrefix(prefixes[i].clone()));
            }
        } else if bytes_eq(pb, &[0x72, 0x65, 0x70]) {
            if flags & x64data::REP != 0 {
                0xF3
            } else {
                return Err(EncodeError::InvalidPrefix(prefixes[i].clone()));
            }
        } else if bytes_eq(pb, &[0x72, 0x65, 0x70, 0x65]) {
            if flags & x64data::REPE != 0 {
                0xF3
            } else {
                return Err(EncodeError::InvalidPrefix(prefixes[i].clone()));
            }
        } else if bytes_eq(pb, &[0x72, 0x65, 0x70, 0x6e, 0x65]) {
            if flags & x64data::REPE != 0 {
                0xF2
            } else {
                return Err(EncodeError::InvalidPrefix(prefixes[i].clone()));
            }
        } else {
            return Err(EncodeError::InvalidPrefix(prefixes[i].clone()));
        };
        let ghost pre = out@;
        out.push(b);
        i = i + 1;
        proof {
            assert(lock_name() =~= seq![0x6cu8, 0x6fu8, 0x63u8, 0x6bu8]);
            assert(rep_name() =~= seq![0x72u8, 0x65u8, 0x70u8]);
            assert(repe_name() =~= seq![0x72u8, 0x65u8, 0x70u8, 0x65u8]);
            assert(repne_name() =~= seq![0x72u8, 0x65u8, 0x70u8, 0x6eu8, 0x65u8]);
            assert(spec_prefix_byte(names[i - 1], flags) == Some(b));
            assert(out@.map_values(|x: u8| StmtV::Const(x)) =~= pre.map_values(
                |x: u8| StmtV::Const(x),
            ).push(StmtV::Const(b)));
            assert forall|rest: Seq<StmtV>|
                true implies pre.map_values(|x: u8| StmtV::Const(x)) + (seq![StmtV::Const(b)]
                + rest) =~= out@.map_values(|x: u8| StmtV::Const(x)) + rest by {}
        }
    }
    proof {
        assert(names.skip(i as int) =~= Seq::<Seq<char>>::empty());
        assert(out@.map_values(|b: u8| StmtV::Const(b)) + Seq::<StmtV>::empty() =~= out@.map_values(
            |b: u8| StmtV::Const(b),
        ));
    }
    Ok(out)
}

fn op_size_of(shapes: &Vec<OpShape>) -> (r: Option<Size>)
    ensures
        r == spec_op_size(shapes@),
{
    let mut i: usize = 0;
    proof {
        assert(shapes@.skip(0) =~= shapes@);
    }
    while i < shapes.len()
        invariant
            i <= shapes@.len(),
            spec_op_size(shapes@) == spec_op_size(shapes@.skip(i as int)),
        decreases shapes@.len() - i,
    {
        proof {
            assert(shapes@.skip(i as int)[0] == shapes@[i as int]);
            assert(shapes@.skip(i as int).skip(1) =~= shapes@.skip(i as int + 1));
        }
        match shapes[i] {
            OpShape::Reg(sz) => {
                return Some(sz);
            },
            OpShape::RegMem(sz) => {
                return Some(sz);
            },
            _ => {},
        }
        i = i + 1;
    }
    proof {
        assert(shapes@.skip(i as int) =~= Seq::<OpShape>::empty());
    }
    None
}

fn reg_operand_of(args: &Vec<Arg>, shapes: &Vec<OpShape>) -> (r: Option<Register>)
    ensures
        r == spec_reg_operand(args@, shapes@),
{
    let mut i: usize = 0;
    proof {
        assert(args@.skip(0) =~= args@);
        assert(shapes@.skip(0) =~= shapes@);
    }
    while i < shapes.len() && i < args.len()
        invariant
            i <= shapes@.len(),
            i <= args@.len(),
            spec_reg_operand(args@, shapes@) == spec_reg_operand(
                args@.skip(i as int),
                shapes@.skip(i as int),
            ),
        decreases shapes@.len() - i,
    {
        proof {
            assert(shapes@.skip(i as int)[0] == shapes@[i as int]);
            assert(args@.skip(i as int)[0] == args@[i as int]);
            assert(shapes@.skip(i as int).skip(1) =~= shapes@.skip(i as int + 1));
            assert(args@.skip(i as int).skip(1) =~= args@.skip(i as int + 1));
        }
        match (&shapes[i], &args[i]) {
            (OpShape::Reg(_), Arg::Direct(reg)) => {
                return Some(*reg);
            },
            _ => {},
        }
        i = i + 1;
    }
    proof {
        if i >= shapes@.len() {
            assert(shapes@.skip(i as int) =~= Seq::<OpShape>::empty());
        } else {
            assert(args@.skip(i as int) =~= Seq::<Arg>::empty());
        }
    }
    None
}

/// The index of the operand in a `RegMem` slot.
fn rm_index_of(args: &Vec<Arg>, shapes: &Vec<OpShape>) -> (r: Option<usize>)
    ensures
        match r {
            Some(i) => i < args@.len() && spec_rm_operand(args@, shapes@) == Some(args@[i as int]),
            None => spec_rm_operand(args@, shapes@) is None,
        },
{
    let mut i: usize = 0;
    proof {
        assert(args@.skip(0) =~= args@);
        assert(shapes@.skip(0) =~= shapes@);
    }
    while i < shapes.len() && i < args.len()
        invariant
            i <= shapes@.len(),
            i <= args@.len(),
            spec_rm_operand(args@, shapes@) == spec_rm_operand(
                args@.skip(i as int),
                shapes@.skip(i as int),
            ),
        decreases shapes@.len() - i,
    {
        proof {
            assert(shapes@.skip(i as int)[0] == shapes@[i as int]);
            assert(args@.skip(i as int)[0] == args@[i as int]);
            assert(shapes@.skip(i as int).skip(1) =~= shapes@.skip(i as int + 1));
            assert(args@.skip(i as int).skip(1) =~= args@.skip(i as int + 1));
        }
        match &shapes[i] {
            OpShape::RegMem(_) => {
                return Some(i);
            },
            _ => {},
        }
        i = i + 1;
    }
    proof {
        if i >= shapes@.len() {
            assert(shapes@.skip(i as int) =~= Seq::<OpShape>::empty());
        } else {
            assert(args@.skip(i as int) =~= Seq::<Arg>::empty());
        }
    }
    None
}

fn low3(c: u8) -> (r: u8)
    ensures
        r == spec_low3(c),
        r < 8,
{
    c % 8
}

/// The ModRM byte, SIB byte and displacement statements for the
/// register-or-memory operand.
#[verifier::rlimit(100)]
#[verifier::spinoff_prover]
fn modrm_stmts(name: &str, d: &Opdata, args: &Vec<Arg>) -> (r: Result<Vec<Stmt>, EncodeError>)
    ensures
        match r {
            Ok(v) => spec_modrm_stmts(name@, d@, args@) == Ok::<Seq<StmtV>, EncodeErrorV>(
                buf_view(v@),
            ),
            Err(e) => spec_modrm_stmts(name@, d@, args@) == Err::<Seq<StmtV>, EncodeErrorV>(e@),
        },
{
    let mut out: Vec<Stmt> = Vec::new();
    let rm_i = match rm_index_of(args, &d.args) {
        None => {
            proof {
                assert(buf_view(out@) =~= Seq::<StmtV>::empty());
            }
            return Ok(out);
        },
        Some(i) => i,
    };
    let regf: u8 = match reg_operand_of(args, &d.args) {
        Some(reg) => low3(reg.kind.encode()),
        None => low3(d.reg),
    };
    match &args[rm_i] {
        Arg::Direct(rr) => {
            out.push(Stmt::Const(0xC0 + regf * 8 + low3(rr.kind.encode())));
            proof {
                assert(buf_view(out@) =~= seq![
                    StmtV::Const(
                        spec_modrm(3, regf, spec_low3(rr.kind.spec_code()->Some_0)),
                    ),
                ]);
            }
            Ok(out)
        },
        Arg::Indirect(m) => {
            let disp: i64 = match &m.disp {
                None => 0,
                Some(ImmediateValue::I64(x)) => *x,
                Some(ImmediateValue::U64(_)) => {
                    return Err(EncodeError::UnsupportedOperand(name.to_owned()));
                },
            };
            if let Some(ix) = &m.index {
                if !(m.scale == 1 || m.scale == 2 || m.scale == 4 || m.scale == 8) {
                    return Err(EncodeError::UnsupportedOperand(name.to_owned()));
                }
                let ixf = low3(ix.kind.encode());
                if ixf == 4 && !ix.kind.is_extended() {
                    // the stack pointer cannot be an index
                    return Err(EncodeError::UnsupportedOperand(name.to_owned()));
                }
                let ss: u8 = if m.scale == 1 {
                    0
                } else if m.scale == 2 {
                    1
                } else if m.scale == 4 {
                    2
                } else {
                    3
                };
                match &m.base {
                    Some(b) => {
                        if b.kind.family() == RegFamily::RIP {
                            return Err(EncodeError::UnsupportedOperand(name.to_owned()));
                        }
                        out.push(Stmt::Const(0x80 + regf * 8 + 4));
                        out.push(Stmt::Const(ss * 64 + ixf * 8 + low3(b.kind.encode())));
                        out.push(Stmt::Var(ImmediateValue::I64(disp), Size::DWORD));
                        proof {
                            assert(buf_view(out@) =~= seq![
                                StmtV::Const(spec_modrm(2, regf, 4)),
                                StmtV::Const(
                                    spec_sib(ss, ixf, spec_low3(b.kind.spec_code()->Some_0)),
                                ),
                                StmtV::Var(ImmediateValue::I64(disp), Size::DWORD),
                            ]);
                        }
                        return Ok(out);
                    },
                    None => {
                        out.push(Stmt::Const(regf * 8 + 4));
                        out.push(Stmt::Const(ss * 64 + ixf * 8 + 5));
                        out.push(Stmt::Var(ImmediateValue::I64(disp), Size::DWORD));
                        proof {
                            assert(buf_view(out@) =~= seq![
                                StmtV::Const(spec_modrm(0, regf, 4)),
                                StmtV::Const(spec_sib(ss, ixf, 5)),
                                StmtV::Var(ImmediateValue::I64(disp), Size::DWORD),
                            ]);
                        }
                        return Ok(out);
                    },
                }
            }
            match &m.base {
                Some(b) => {
                    if b.kind.family() == RegFamily::RIP {
                        out.push(Stmt::Const(regf * 8 + 5));
                        out.push(Stmt::Var(ImmediateValue::I64(disp), Size::DWORD));
                        proof {
                            assert(buf_view(out@) =~= seq![
                                StmtV::Const(spec_modrm(0, regf, 5)),
                                StmtV::Var(ImmediateValue::I64(disp), Size::DWORD),
                            ]);
                        }
                    } else {
                        let rmf = low3(b.kind.encode());
                        if rmf == 4 {
                            out.push(Stmt::Const(0x80 + regf * 8 + 4));
                            out.push(Stmt::Const(0x24));
                            out.push(Stmt::Var(ImmediateValue::I64(disp), Size::DWORD));
                            proof {
                                assert(buf_view(out@) =~= seq![
                                    StmtV::Const(spec_modrm(2, regf, 4)),
                                    StmtV::Const(0x24u8),
                                    StmtV::Var(ImmediateValue::I64(disp), Size::DWORD),
                                ]);
                            }
                        } else {
                            out.push(Stmt::Const(0x80 + regf * 8 + rmf));
                            out.push(Stmt::Var(ImmediateValue::I64(disp), Size::DWORD));
                            proof {
                                assert(buf_view(out@) =~= seq![
                                    StmtV::Const(spec_modrm(2, regf, rmf)),
                                    StmtV::Var(ImmediateValue::I64(disp), Size::DWORD),
                                ]);
                            }
                        }
                    }
                    Ok(out)
                },
                None => {
                    out.push(Stmt::Const(regf * 8 + 4));
                    out.push(Stmt::Const(0x25));
                    out.push(Stmt::Var(ImmediateValue::I64(disp), Size::DWORD));
                    proof {
                        assert(buf_view(out@) =~= seq![
                            StmtV::Const(spec_modrm(0, regf, 4)),
                            StmtV::Const(0x25u8),
                            StmtV::Var(ImmediateValue::I64(disp), Size::DWORD),
                        ]);
                    }
                    Ok(out)
                },
            }
        },
        Arg::IndirectJumpTarget(jt, _) => match jt {
            JumpType::Forward(t) => {
                out.push(Stmt::Const(regf * 8 + 5));
                out.push(Stmt::Var(ImmediateValue::I64(0), Size::DWORD));
                out.push(Stmt::ForwardJumpTarget(*t, Size::DWORD));
                proof {
                    assert(buf_view(out@) =~= seq![
                        StmtV::Const(spec_modrm(0, regf, 5)),
                        StmtV::Var(ImmediateValue::I64(0), Size::DWORD),
                        StmtV::ForwardJumpTarget(*t, Size::DWORD),
                    ]);
                }
                Ok(out)
            },
            _ => Err(EncodeError::UnsupportedOperand(name.to_owned())),
        },
        _ => Err(EncodeError::UnsupportedOperand(name.to_owned())),
    }
}

/// The trailing immediate and jump-displacement statements.
fn tail_stmts(name: &str, args: &Vec<Arg>, shapes: &Vec<OpShape>) -> (r: Result<
    Vec<Stmt>,
    EncodeError,
>)
    ensures
        match r {
            Ok(v) => spec_tail_stmts(name@, args@, shapes@) == Ok::<Seq<StmtV>, EncodeErrorV>(
                buf_view(v@),
            ),
            Err(e) => spec_tail_stmts(name@, args@, shapes@) == Err::<Seq<StmtV>, EncodeErrorV>(
                e@,
            ),
        },
{
    let mut out: Vec<Stmt> = Vec::new();
    let mut i: usize = 0;
    proof {
        assert(args@.skip(0) =~= args@);
        assert(shapes@.skip(0) =~= shapes@);
        assert(buf_view(out@) =~= Seq::<StmtV>::empty());
    }
    while i < shapes.len() && i < args.len()
        invariant
            i <= shapes@.len(),
            i <= args@.len(),
            spec_tail_stmts(name@, args@, shapes@) == (match spec_tail_stmts(
                name@,
                args@.skip(i as int),
                shapes@.skip(i as int),
            ) {
                Ok(rest) => Ok::<Seq<StmtV>, EncodeErrorV>(buf_view(out@) + rest),
                Err(e) => Err(e),
            }),
        decreases shapes@.len() - i,
    {
        proof {
            assert(shapes@.skip(i as int)[0] == shapes@[i as int]);
            assert(args@.skip(i as int)[0] == args@[i as int]);
            assert(shapes@.skip(i as int).skip(1) =~= shapes@.skip(i as int + 1));
            assert(args@.skip(i as int).skip(1) =~= args@.skip(i as int + 1));
        }
        let ghost pre = out@;
        let ghost mut h: Seq<StmtV> = Seq::empty();
        match &shapes[i] {
            OpShape::Imm(sz) => match &args[i] {
                Arg::Immediate(v, _) => {
                    out.push(Stmt::Var(*v, *sz));
                    proof {
                        h = seq![StmtV::Var(*v, *sz)];
                        assert(buf_view(out@) =~= buf_view(pre) + h);
                    }
                },
                _ => {
                    return Err(EncodeError::UnsupportedOperand(name.to_owned()));
                },
            },
            OpShape::JumpRel(sz) => match &args[i] {
                Arg::JumpTarget(JumpType::Forward(t), _) => {
                    out.push(Stmt::Var(ImmediateValue::I64(0), *sz));
                    out.push(Stmt::ForwardJumpTarget(*t, *sz));
                    proof {
                        h = seq![
                            StmtV::Var(ImmediateValue::I64(0), *sz),
                            StmtV::ForwardJumpTarget(*t, *sz),
                        ];
                        assert(buf_view(out@) =~= buf_view(pre) + h);
                    }
                },
                _ => {
                    return Err(EncodeError::UnsupportedOperand(name.to_owned()));
                },
            },
            _ => {
                proof {
                    assert(buf_view(out@) =~= buf_view(pre) + h);
                }
            },
        }
        i = i + 1;
        proof {
            assert(spec_tail_stmts(name@, args@.skip(i - 1), shapes@.skip(i - 1)) == (match
                spec_tail_stmts(name@, args@.skip(i as int), shapes@.skip(i as int)) {
                Ok(rest) => Ok::<Seq<StmtV>, EncodeErrorV>(h + rest),
                Err(e) => Err(e),
            }));
            if spec_tail_stmts(name@, args@.skip(i as int), shapes@.skip(i as int)) is Ok {
                let rest2 = spec_tail_stmts(name@, args@.skip(i as int), shapes@.skip(i as int))->Ok_0;
                assert(buf_view(pre) + (h + rest2) =~= buf_view(out@) + rest2);
            }
            assert(spec_tail_stmts(name@, args@, shapes@) == (match spec_tail_stmts(
                name@,
                args@.skip(i as int),
                shapes@.skip(i as int),
            ) {
                Ok(rest) => Ok::<Seq<StmtV>, EncodeErrorV>(buf_view(out@) + rest),
                Err(e) => Err(e),
            }));
        }
    }
    proof {
        if i >= shapes@.len() {
            assert(shapes@.skip(i as int) =~= Seq::<OpShape>::empty());
        } else {
            assert(args@.skip(i as int) =~= Seq::<Arg>::empty());
        }
        assert(buf_view(out@) + Seq::<StmtV>::empty() =~= buf_view(out@));
    }
    Ok(out)
}

/// The user-prefix bytes, the mandatory prefixes the flags imply, and the
/// automatic operand-size prefix.
fn emit_user_prefixes(buffer: &mut StmtBuffer, user: &Vec<u8>)
    ensures
        buf_view(final(buffer)@) == buf_view(old(buffer)@) + user@.map_values(
            |b: u8| StmtV::Const(b),
        ),
{
    let ghost b0 = buffer@;
    let mut k: usize = 0;
    while k < user.len()
        invariant
            k <= user@.len(),
            buf_view(buffer@) == buf_view(b0) + user@.take(k as int).map_values(
                |b: u8| StmtV::Const(b),
            ),
        decreases user@.len() - k,
    {
        let ghost pre = buffer@;
        let b = user[k];
        buffer.push(Stmt::Const(b));
        k = k + 1;
        proof {
            crate::x64::assembler::lemma_buf_view_push(pre, Stmt::Const(b));
            assert(user@.take(k as int) =~= user@.take(k - 1).push(b));
            assert(user@.take(k as int).map_values(|x: u8| StmtV::Const(x)) =~= user@.take(
                k - 1,
            ).map_values(|x: u8| StmtV::Const(x)).push(StmtV::Const(b)));
            assert(buf_view(buffer@) =~= buf_view(b0) + user@.take(k as int).map_values(
                |x: u8| StmtV::Const(x),
            ));
        }
    }
    proof {
        assert(user@.take(user@.len() as int) =~= user@);
    }
}

/// The mandatory prefixes the flags imply, and the automatic operand-size
/// prefix (legacy variants only).
fn emit_legacy_prefixes(buffer: &mut StmtBuffer, flags: u32, osz: Option<Size>)
    ensures
        buf_view(final(buffer)@) == buf_view(old(buffer)@) + spec_mandatory_prefixes(flags)
            + spec_auto_prefix(flags, osz),
{
    let ghost b1 = buffer@;
    if flags & x64data::PREF_66 != 0 {
        buffer.push(Stmt::Const(0x66));
    }
    if flags & x64data::PREF_67 != 0 {
        buffer.push(Stmt::Const(0x67));
    }
    if flags & x64data::PREF_F0 != 0 {
        buffer.push(Stmt::Const(0xF0));
    }
    if flags & x64data::PREF_F2 != 0 {
        buffer.push(Stmt::Const(0xF2));
    }
    if flags & x64data::PREF_F3 != 0 {
        buffer.push(Stmt::Const(0xF3));
    }
    proof {
        assert(buf_view(buffer@) =~= buf_view(b1) + spec_mandatory_prefixes(flags));
    }
    let ghost b2 = buffer@;
    if flags & (x64data::AUTO_SIZE | x64data::AUTO_NO32) != 0 && (match osz {
        Some(s) => s == Size::WORD,
        None => false,
    }) {
        buffer.push(Stmt::Const(0x66));
    }
    proof {
        assert(buf_view(buffer@) =~= buf_view(b2) + spec_auto_prefix(flags, osz));
        assert(buf_view(buffer@) =~= buf_view(b1) + spec_mandatory_prefixes(flags)
            + spec_auto_prefix(flags, osz));
    }
}

/// The four REX/VEX field bits the flags and operands call for: `W` wide,
/// `R`/`X`/`B` register extensions.
fn ext_bits(d: &Opdata, args: &Vec<Arg>, osz: Option<Size>) -> (r: (u8, u8, u8, u8))
    ensures
        r.0 == spec_bit_w(d.flags, osz),
        r.1 == spec_bit_r(args@, d@.args),
        r.2 == spec_bit_x(args@, d@.args),
        r.3 == spec_bit_b(d.flags, args@, d@.args),
        r.0 <= 1 && r.1 <= 1 && r.2 <= 1 && r.3 <= 1,
{
    let w: u8 = if d.flags & x64data::WITH_REXW != 0 || (d.flags & (x64data::AUTO_SIZE
        | x64data::AUTO_REXW) != 0 && (match osz {
        Some(s) => s == Size::QWORD,
        None => false,
    })) {
        1
    } else {
        0
    };
    let reg_op = reg_operand_of(args, &d.args);
    let rm_i_opt = rm_index_of(args, &d.args);
    let rex_r: u8 = match (&rm_i_opt, &reg_op) {
        (Some(_), Some(reg)) => if reg.kind.is_extended() {
            1
        } else {
            0
        },
        _ => 0,
    };
    let rex_x: u8 = match rm_i_opt {
        Some(i) => match &args[i] {
            Arg::Indirect(m) => match &m.index {
                Some(ix) => if ix.kind.is_extended() {
                    1
                } else {
                    0
                },
                None => 0,
            },
            _ => 0,
        },
        None => 0,
    };
    let rex_b: u8 = match rm_i_opt {
        Some(i) => {
            let ext = match &args[i] {
                Arg::Direct(rr) => rr.kind.is_extended(),
                Arg::Indirect(m) => match &m.base {
                    Some(bb) => bb.kind.is_extended(),
                    None => false,
                },
                _ => false,
            };
            if ext {
                1
            } else {
                0
            }
        },
        None => {
            if d.flags & x64data::SHORT_ARG != 0 {
                match &reg_op {
                    Some(reg) => if reg.kind.is_extended() {
                        1
                    } else {
                        0
                    },
                    None => 0,
                }
            } else {
                0
            }
        },
    };
    (w, rex_r, rex_x, rex_b)
}

/// The three-byte VEX or XOP prefix a vector variant calls for.
fn emit_vex(buffer: &mut StmtBuffer, d: &Opdata, args: &Vec<Arg>, osz: Option<Size>)
    requires
        osz == spec_op_size(d@.args),
    ensures
        buf_view(final(buffer)@) == buf_view(old(buffer)@) + spec_vex_prefix(d@, args@),
{
    let bits = ext_bits(d, args, osz);
    let b0: u8 = if d.flags & x64data::XOP_OP != 0 {
        0x8F
    } else {
        0xC4
    };
    let map: u8 = if d.ops.len() > 0 {
        d.ops[0] % 32
    } else {
        1
    };
    let l: u8 = if d.flags & x64data::WITH_VEXL != 0 || (d.flags & x64data::AUTO_VEXL != 0
        && (match osz {
        Some(s) => s == Size::HWORD,
        None => false,
    })) {
        1
    } else {
        0
    };
    let pp: u8 = if d.flags & x64data::PREF_66 != 0 {
        1
    } else if d.flags & x64data::PREF_F3 != 0 {
        2
    } else if d.flags & x64data::PREF_F2 != 0 {
        3
    } else {
        0
    };
    let byte1: u8 = (1 - bits.1) * 128 + (1 - bits.2) * 64 + (1 - bits.3) * 32 + map;
    let byte2: u8 = bits.0 * 128 + 0x78 + l * 4 + pp;
    let ghost b = buffer@;
    buffer.push(Stmt::Const(b0));
    buffer.push(Stmt::Const(byte1));
    buffer.push(Stmt::Const(byte2));
    proof {
        assert(buf_view(buffer@) =~= buf_view(b) + spec_vex_prefix(d@, args@));
    }
}

/// The REX byte, when the variant or its operands need one.
fn emit_rex(buffer: &mut StmtBuffer, d: &Opdata, args: &Vec<Arg>, osz: Option<Size>)
    ensures
        buf_view(final(buffer)@) == buf_view(old(buffer)@) + spec_rex(
            d.flags,
            osz,
            args@,
            d@.args,
        ),
{
    let bits = ext_bits(d, args, osz);
    let ghost b0 = buffer@;
    if bits.0 != 0 || bits.1 != 0 || bits.2 != 0 || bits.3 != 0 {
        buffer.push(Stmt::Const(0x40 + bits.0 * 8 + bits.1 * 4 + bits.2 * 2 + bits.3));
    }
    proof {
        assert(buf_view(buffer@) =~= buf_view(b0) + spec_rex(d.flags, osz, args@, d@.args));
    }
}

/// The opcode bytes from table position `from` on (a VEX/XOP variant skips
/// its leading map byte), adding the register code into the last byte under
/// `SHORT_ARG`.
fn emit_opcode(buffer: &mut StmtBuffer, d: &Opdata, args: &Vec<Arg>, from: usize)
    requires
        from <= d.ops@.len(),
    ensures
        buf_view(final(buffer)@) == buf_view(old(buffer)@) + spec_opcode_from(
            d.ops@.skip(from as int),
            d.flags,
            args@,
            d@.args,
        ),
{
    let ghost opsv = d.ops@.skip(from as int);
    let ghost b4 = buffer@;
    if d.flags & x64data::SHORT_ARG != 0 && d.ops.len() > from {
        let mut k2: usize = 0;
        let last_i = d.ops.len() - 1 - from;
        while k2 < last_i
            invariant
                k2 <= last_i,
                from + last_i + 1 == d.ops@.len(),
                d.ops@.len() <= usize::MAX,
                opsv == d.ops@.skip(from as int),
                last_i == opsv.len() - 1,
                buf_view(buffer@) == buf_view(b4) + opsv.take(k2 as int).map_values(
                    |b: u8| StmtV::Const(b),
                ),
            decreases last_i - k2,
        {
            let ghost pre = buffer@;
            let b = d.ops[from + k2];
            proof {
                assert(opsv[k2 as int] == d.ops@[from + k2]);
            }
            buffer.push(Stmt::Const(b));
            k2 = k2 + 1;
            proof {
                crate::x64::assembler::lemma_buf_view_push(pre, Stmt::Const(b));
                assert(opsv.take(k2 as int) =~= opsv.take(k2 - 1).push(b));
                assert(opsv.take(k2 as int).map_values(|x: u8| StmtV::Const(x)) =~= opsv.take(
                    k2 - 1,
                ).map_values(|x: u8| StmtV::Const(x)).push(StmtV::Const(b)));
                assert(buf_view(buffer@) =~= buf_view(b4) + opsv.take(k2 as int).map_values(
                    |x: u8| StmtV::Const(x),
                ));
            }
        }
        let last = d.ops[d.ops.len() - 1];
        proof {
            assert(opsv.last() == d.ops@[d.ops@.len() - 1]);
        }
        let reg_op = reg_operand_of(args, &d.args);
        let code: u8 = match &reg_op {
            Some(reg) => low3(reg.kind.encode()),
            None => 0,
        };
        let shifted: u8 = if last as u16 + code as u16 > 255 {
            ((last as u16 + code as u16) - 256) as u8
        } else {
            last + code
        };
        let ghost pre_last = buffer@;
        buffer.push(Stmt::Const(shifted));
        proof {
            crate::x64::assembler::lemma_buf_view_push(pre_last, Stmt::Const(shifted));
            assert(shifted == spec_add8(opsv.last(), code));
            assert(opsv.take(last_i as int) =~= opsv.take(opsv.len() - 1));
            assert(buf_view(buffer@) =~= buf_view(b4) + spec_opcode_from(
                opsv,
                d.flags,
                args@,
                d@.args,
            ));
        }
    } else {
        let mut k2: usize = 0;
        let total = d.ops.len() - from;
        while k2 < total
            invariant
                k2 <= total,
                from + total == d.ops@.len(),
                d.ops@.len() <= usize::MAX,
                opsv == d.ops@.skip(from as int),
                total == opsv.len(),
                buf_view(buffer@) == buf_view(b4) + opsv.take(k2 as int).map_values(
                    |b: u8| StmtV::Const(b),
                ),
            decreases total - k2,
        {
            let ghost pre = buffer@;
            let b = d.ops[from + k2];
            proof {
                assert(opsv[k2 as int] == d.ops@[from + k2]);
            }
            buffer.push(Stmt::Const(b));
            k2 = k2 + 1;
            proof {
                crate::x64::assembler::lemma_buf_view_push(pre, Stmt::Const(b));
                assert(opsv.take(k2 as int) =~= opsv.take(k2 - 1).push(b));
                assert(opsv.take(k2 as int).map_values(|x: u8| StmtV::Const(x)) =~= opsv.take(
                    k2 - 1,
                ).map_values(|x: u8| StmtV::Const(x)).push(StmtV::Const(b)));
                assert(buf_view(buffer@) =~= buf_view(b4) + opsv.take(k2 as int).map_values(
                    |x: u8| StmtV::Const(x),
                ));
            }
        }
        proof {
            assert(opsv.take(opsv.len() as int) =~= opsv);
            assert(buf_view(buffer@) =~= buf_view(b4) + spec_opcode_from(
                opsv,
                d.flags,
                args@,
                d@.args,
            ));
        }
    }
}

/// Select the first variant in `data` matching `args` and append its
/// encoding — prefixes, opcode, ModRM/SIB, displacement, immediates — to the
/// buffer. A request no variant matches, a prefix the variant refuses, or an
/// operand form no x86-64 encoding exists for is an invalid code-generation
/// request and fails, naming the mnemonic or prefix, without touching the
/// buffer.
#[verifier::rlimit(100)]
#[verifier::spinoff_prover]
pub fn compile_op(
    buffer: &mut StmtBuffer,
    name: &str,
    prefixes: &Vec<Ident>,
    args: &Vec<Arg>,
    data: &[Opdata],
) -> (r: Result<(), EncodeError>)
    ensures
        match r {
            Ok(_) => spec_compile(name@, prefix_views(prefixes@), args@, opdata_views(data@))
                is Ok && buf_view(final(buffer)@) == buf_view(old(buffer)@) + spec_compile(
                name@,
                prefix_views(prefixes@),
                args@,
                opdata_views(data@),
            )->Ok_0,
            Err(e) => spec_compile(name@, prefix_views(prefixes@), args@, opdata_views(data@))
                == Err::<Seq<StmtV>, EncodeErrorV>(e@) && final(buffer)@ == old(buffer)@,
        },
{
    let ghost pviews = prefix_views(prefixes@);
    let di = match find_variant(data, args) {
        None => {
            return Err(EncodeError::NoMatchingVariant(name.to_owned()));
        },
        Some(i) => i,
    };
    let d = &data[di];
    let user = match user_prefix_bytes(prefixes, d.flags) {
        Err(e) => {
            return Err(e);
        },
        Ok(v) => v,
    };
    let mut modrm = match modrm_stmts(name, d, args) {
        Err(e) => {
            return Err(e);
        },
        Ok(v) => v,
    };
    let mut tail = match tail_stmts(name, args, &d.args) {
        Err(e) => {
            return Err(e);
        },
        Ok(v) => v,
    };
    emit_variant(buffer, d, args, &user, modrm, tail, Ghost(name@), Ghost(pviews));
    Ok(())
}

/// Append one matched variant's statements: user prefixes, then either the
/// VEX/XOP prefix or the legacy prefixes and REX byte, the opcode bytes, the
/// ModRM/SIB/displacement group, and the trailing immediates.
#[verifier::rlimit(100)]
#[verifier::spinoff_prover]
fn emit_variant(
    buffer: &mut StmtBuffer,
    d: &Opdata,
    args: &Vec<Arg>,
    user: &Vec<u8>,
    modrm: Vec<Stmt>,
    tail: Vec<Stmt>,
    Ghost(name): Ghost<Seq<char>>,
    Ghost(pviews): Ghost<Seq<Seq<char>>>,
)
    requires
        spec_user_prefixes(pviews, d.flags) == Ok::<Seq<StmtV>, EncodeErrorV>(
            user@.map_values(|b: u8| StmtV::Const(b)),
        ),
        spec_modrm_stmts(name, d@, args@) == Ok::<Seq<StmtV>, EncodeErrorV>(buf_view(modrm@)),
        spec_tail_stmts(name, args@, d@.args) == Ok::<Seq<StmtV>, EncodeErrorV>(buf_view(tail@)),
    ensures
        spec_encode_variant(name, pviews, args@, d@) is Ok,
        buf_view(final(buffer)@) == buf_view(old(buffer)@) + spec_encode_variant(
            name,
            pviews,
            args@,
            d@,
        )->Ok_0,
{
    let mut modrm = modrm;
    let mut tail = tail;
    let ghost spec_result = spec_encode_variant(name, pviews, args@, d@)->Ok_0;
    let ghost b0 = buffer@;
    let osz = op_size_of(&d.args);
    emit_user_prefixes(buffer, user);
    if d.flags & (x64data::VEX_OP | x64data::XOP_OP) != 0 {
        emit_vex(buffer, d, args, osz);
        let from: usize = if d.ops.len() > 0 {
            1
        } else {
            0
        };
        emit_opcode(buffer, d, args, from);
        proof {
            assert(d.ops@.skip(from as int) =~= vex_ops(d.ops@));
        }
    } else {
        emit_legacy_prefixes(buffer, d.flags, osz);
        emit_rex(buffer, d, args, osz);
        emit_opcode(buffer, d, args, 0);
        proof {
            assert(d.ops@.skip(0) =~= d.ops@);
        }
    }
    let ghost b5 = buffer@;
    let ghost modrm_v = modrm@;
    buffer.append(&mut modrm);
    proof {
        assert(buf_view(buffer@) =~= buf_view(b5) + buf_view(modrm_v));
    }
    let ghost b6 = buffer@;
    let ghost tail_v = tail@;
    buffer.append(&mut tail);
    proof {
        assert(buf_view(buffer@) =~= buf_view(b6) + buf_view(tail_v));
        assert(buf_view(buffer@) =~= buf_view(b0) + spec_result);
    }
}

} // verus!
