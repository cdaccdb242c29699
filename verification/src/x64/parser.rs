//! Operand and register model: value types for registers, sizes, memory
//! references, immediates, operands and jump targets, with the packed-code
//! arithmetic the encoder reads (a register's identity packs a 4-bit code in
//! the low nibble and its family in the high nibble).

use vstd::prelude::*;

verus! {

pub type Ident = String;

/// An opaque 64-bit identifier naming an anonymous local label, allocated by
/// the assembler and placed with `LocalLabel`.
pub type JumpTarget = u64;

#[derive(Debug)]
pub enum Item {
    Instruction(Vec<Ident>, Vec<Arg>),
    Label(LabelType),
    Directive(Ident, Vec<Arg>),
}

#[derive(Debug, Clone, Copy, PartialEq, Eq, Structural)]
pub enum ImmediateValue {
    I64(i64),
    U64(u64),
}

#[derive(Debug, Clone)]
pub enum Arg {
    /// indirect memory reference supporting scale, index, base and displacement
    Indirect(MemoryRef),
    /// a bare register (rax, ...)
    Direct(Register),
    /// jump target
    JumpTarget(JumpType, Option<Size>),
    /// indirect jump target, i.e. rip-relative displacement
    IndirectJumpTarget(JumpType, Option<Size>),
    /// an expression that evaluates to a value
    Immediate(ImmediateValue, Option<Size>),
    /// placeholder value
    Invalid,
}

#[derive(Debug, Clone)]
pub struct MemoryRef {
    pub index: Option<Register>,
    pub scale: isize,
    pub base: Option<Register>,
    pub disp: Option<ImmediateValue>,
    pub size: Option<Size>,
}

#[derive(Debug)]
pub enum LabelType {
    Global(Ident),
    Local(Ident),
}

/// Named-jump addressing modes. `Global` and `Backward` carry a label name;
/// `Forward` carries the numeric target that the two-pass resolver patches
/// through `LocalLabel`/`ForwardJumpTarget` statements.
#[derive(Debug, Clone)]
pub enum JumpType {
    Global(Ident),
    Backward(Ident),
    Forward(JumpTarget),
}

#[derive(Debug, Clone, Copy, PartialEq, Eq, Structural)]
pub struct Register {
    pub size: Size,
    pub kind: RegKind,
}

#[derive(Debug, Clone, Copy, PartialEq, Eq, Structural)]
pub enum RegKind {
    Static(RegId),
}

/// The physical registers. Each packs into a byte: the low nibble is the
/// register code within its family, the high nibble selects the family.
#[derive(Debug, PartialEq, Eq, Structural, Hash, Clone, Copy)]
pub enum RegId {
    RAX,
    RCX,
    RDX,
    RBX,
    RSP,
    RBP,
    RSI,
    RDI,
    R8,
    R9,
    R10,
    R11,
    R12,
    R13,
    R14,
    R15,
    RIP,
    AH,
    CH,
    DH,
    BH,
    ST0,
    ST1,
    ST2,
    ST3,
    ST4,
    ST5,
    ST6,
    ST7,
    MMX0,
    MMX1,
    MMX2,
    MMX3,
    MMX4,
    MMX5,
    MMX6,
    MMX7,
    XMM0,
    XMM1,
    XMM2,
    XMM3,
    XMM4,
    XMM5,
    XMM6,
    XMM7,
    XMM8,
    XMM9,
    XMM10,
    XMM11,
    XMM12,
    XMM13,
    XMM14,
    XMM15,
    ES,
    CS,
    SS,
    DS,
    FS,
    GS,
    CR0,
    CR1,
    CR2,
    CR3,
    CR4,
    CR5,
    CR6,
    CR7,
    CR8,
    CR9,
    CR10,
    CR11,
    CR12,
    CR13,
    CR14,
    CR15,
    DR0,
    DR1,
    DR2,
    DR3,
    DR4,
    DR5,
    DR6,
    DR7,
    DR8,
    DR9,
    DR10,
    DR11,
    DR12,
    DR13,
    DR14,
    DR15,
}

#[derive(Debug, PartialOrd, PartialEq, Ord, Eq, Structural, Hash, Clone, Copy)]
pub enum RegFamily {
    LEGACY,
    RIP,
    HIGHBYTE,
    FP,
    MMX,
    XMM,
    SEGMENT,
    CONTROL,
    DEBUG,
}

/// Operand widths, each value-equal to its byte count.
#[derive(Debug, PartialOrd, PartialEq, Ord, Eq, Structural, Hash, Clone, Copy)]
pub enum Size {
    BYTE,
    WORD,
    DWORD,
    QWORD,
    PWORD,
    OWORD,
    HWORD,
}

impl Register {
    pub fn new_static(size: Size, id: RegId) -> (r: Register)
        ensures
            r == (Register { size: size, kind: RegKind::Static(id) }),
    {
        Register { size: size, kind: RegKind::Static(id) }
    }

    pub fn size(&self) -> (r: Size)
        ensures
            r == self.size,
    {
        self.size
    }
}

impl RegKind {
    pub open spec fn spec_code(self) -> Option<u8> {
        match self {
            RegKind::Static(id) => Some(id.spec_code()),
        }
    }

    pub open spec fn spec_family(self) -> RegFamily {
        match self {
            RegKind::Static(id) => id.spec_family(),
        }
    }

    /// `true` for a register that needs the REX.B/R/X extension bit: codes 8
    /// and up of the families whose encodings have one.
    pub open spec fn spec_extended(self) -> bool {
        match self.spec_family() {
            RegFamily::LEGACY | RegFamily::XMM | RegFamily::CONTROL | RegFamily::DEBUG => match self
                .spec_code() {
                Some(c) => c > 7,
                None => true,
            },
            _ => false,
        }
    }

    pub fn code(&self) -> (r: Option<u8>)
        ensures
            r == self.spec_code(),
    {
        match *self {
            RegKind::Static(id) => Some(id.code()),
        }
    }

    pub fn family(&self) -> (r: RegFamily)
        ensures
            r == self.spec_family(),
    {
        match *self {
            RegKind::Static(id) => id.family(),
        }
    }

    pub fn is_dynamic(&self) -> (r: bool)
        ensures
            r == false,
    {
        match *self {
            RegKind::Static(_) => false,
        }
    }

    pub fn is_extended(&self) -> (r: bool)
        ensures
            r == self.spec_extended(),
    {
        match self.family() {
            RegFamily::LEGACY | RegFamily::XMM | RegFamily::CONTROL | RegFamily::DEBUG => {
                let c = match self.code() {
                    Some(c) => c,
                    None => 8,
                };
                c > 7
            },
            _ => false,
        }
    }

    /// The 4-bit code used in ModRM/SIB fields; 0 for a register whose code
    /// is not statically known.
    pub fn encode(&self) -> (r: u8)
        ensures
            r == match self.spec_code() {
                Some(c) => c,
                None => 0,
            },
    {
        match self.code() {
            Some(c) => c,
            None => 0,
        }
    }

    pub fn from_number(id: u8) -> (r: RegKind)
        requires
            id <= 15,
        ensures
            r == RegKind::Static(RegId::spec_from_number(id)),
    {
        RegKind::Static(RegId::from_number(id))
    }
}

impl RegId {
    /// The packed byte: family nibble above, code nibble below.
    pub open spec fn spec_num(self) -> u8 {
        match self {
            RegId::RAX => 0x00,
            RegId::RCX => 0x01,
            RegId::RDX => 0x02,
            RegId::RBX => 0x03,
            RegId::RSP => 0x04,
            RegId::RBP => 0x05,
            RegId::RSI => 0x06,
            RegId::RDI => 0x07,
            RegId::R8 => 0x08,
            RegId::R9 => 0x09,
            RegId::R10 => 0x0A,
            RegId::R11 => 0x0B,
            RegId::R12 => 0x0C,
            RegId::R13 => 0x0D,
            RegId::R14 => 0x0E,
            RegId::R15 => 0x0F,
            RegId::RIP => 0x15,
            RegId::AH => 0x24,
            RegId::CH => 0x25,
            RegId::DH => 0x26,
            RegId::BH => 0x27,
            RegId::ST0 => 0x30,
            RegId::ST1 => 0x31,
            RegId::ST2 => 0x32,
            RegId::ST3 => 0x33,
            RegId::ST4 => 0x34,
            RegId::ST5 => 0x35,
            RegId::ST6 => 0x36,
            RegId::ST7 => 0x37,
            RegId::MMX0 => 0x40,
            RegId::MMX1 => 0x41,
            RegId::MMX2 => 0x42,
            RegId::MMX3 => 0x43,
            RegId::MMX4 => 0x44,
            RegId::MMX5 => 0x45,
            RegId::MMX6 => 0x46,
            RegId::MMX7 => 0x47,
            RegId::XMM0 => 0x50,
            RegId::XMM1 => 0x51,
            RegId::XMM2 => 0x52,
            RegId::XMM3 => 0x53,
            RegId::XMM4 => 0x54,
            RegId::XMM5 => 0x55,
            RegId::XMM6 => 0x56,
            RegId::XMM7 => 0x57,
            RegId::XMM8 => 0x58,
            RegId::XMM9 => 0x59,
            RegId::XMM10 => 0x5A,
            RegId::XMM11 => 0x5B,
            RegId::XMM12 => 0x5C,
            RegId::XMM13 => 0x5D,
            RegId::XMM14 => 0x5E,
            RegId::XMM15 => 0x5F,
            RegId::ES => 0x60,
            RegId::CS => 0x61,
            RegId::SS => 0x62,
            RegId::DS => 0x63,
            RegId::FS => 0x64,
            RegId::GS => 0x65,
            RegId::CR0 => 0x70,
            RegId::CR1 => 0x71,
            RegId::CR2 => 0x72,
            RegId::CR3 => 0x73,
            RegId::CR4 => 0x74,
            RegId::CR5 => 0x75,
            RegId::CR6 => 0x76,
            RegId::CR7 => 0x77,
            RegId::CR8 => 0x78,
            RegId::CR9 => 0x79,
            RegId::CR10 => 0x7A,
            RegId::CR11 => 0x7B,
            RegId::CR12 => 0x7C,
            RegId::CR13 => 0x7D,
            RegId::CR14 => 0x7E,
            RegId::CR15 => 0x7F,
            RegId::DR0 => 0x80,
            RegId::DR1 => 0x81,
            RegId::DR2 => 0x82,
            RegId::DR3 => 0x83,
            RegId::DR4 => 0x84,
            RegId::DR5 => 0x85,
            RegId::DR6 => 0x86,
            RegId::DR7 => 0x87,
            RegId::DR8 => 0x88,
            RegId::DR9 => 0x89,
            RegId::DR10 => 0x8A,
            RegId::DR11 => 0x8B,
            RegId::DR12 => 0x8C,
            RegId::DR13 => 0x8D,
            RegId::DR14 => 0x8E,
            RegId::DR15 => 0x8F,
        }
    }

    pub open spec fn spec_code(self) -> u8 {
        self.spec_num() & 0xF
    }

    pub open spec fn spec_family(self) -> RegFamily {
        match self {
            RegId::RAX | RegId::RCX | RegId::RDX | RegId::RBX | RegId::RSP | RegId::RBP
                | RegId::RSI | RegId::RDI | RegId::R8 | RegId::R9 | RegId::R10 | RegId::R11
                | RegId::R12 | RegId::R13 | RegId::R14 | RegId::R15 => RegFamily::LEGACY,
            RegId::RIP => RegFamily::RIP,
            RegId::AH | RegId::CH | RegId::DH | RegId::BH => RegFamily::HIGHBYTE,
            RegId::ST0 | RegId::ST1 | RegId::ST2 | RegId::ST3 | RegId::ST4 | RegId::ST5
                | RegId::ST6 | RegId::ST7 => RegFamily::FP,
            RegId::MMX0 | RegId::MMX1 | RegId::MMX2 | RegId::MMX3 | RegId::MMX4 | RegId::MMX5
                | RegId::MMX6 | RegId::MMX7 => RegFamily::MMX,
            RegId::XMM0 | RegId::XMM1 | RegId::XMM2 | RegId::XMM3 | RegId::XMM4 | RegId::XMM5
                | RegId::XMM6 | RegId::XMM7 | RegId::XMM8 | RegId::XMM9 | RegId::XMM10
                | RegId::XMM11 | RegId::XMM12 | RegId::XMM13 | RegId::XMM14
                | RegId::XMM15 => RegFamily::XMM,
            RegId::ES | RegId::CS | RegId::SS | RegId::DS | RegId::FS
                | RegId::GS => RegFamily::SEGMENT,
            RegId::CR0 | RegId::CR1 | RegId::CR2 | RegId::CR3 | RegId::CR4 | RegId::CR5
                | RegId::CR6 | RegId::CR7 | RegId::CR8 | RegId::CR9 | RegId::CR10 | RegId::CR11
                | RegId::CR12 | RegId::CR13 | RegId::CR14 | RegId::CR15 => RegFamily::CONTROL,
            RegId::DR0 | RegId::DR1 | RegId::DR2 | RegId::DR3 | RegId::DR4 | RegId::DR5
                | RegId::DR6 | RegId::DR7 | RegId::DR8 | RegId::DR9 | RegId::DR10 | RegId::DR11
                | RegId::DR12 | RegId::DR13 | RegId::DR14 | RegId::DR15 => RegFamily::DEBUG,
        }
    }

    /// The register with legacy code `id`.
    pub open spec fn spec_from_number(id: u8) -> RegId {
        if id == 0 {
            RegId::RAX
        } else if id == 1 {
            RegId::RCX
        } else if id == 2 {
            RegId::RDX
        } else if id == 3 {
            RegId::RBX
        } else if id == 4 {
            RegId::RSP
        } else if id == 5 {
            RegId::RBP
        } else if id == 6 {
            RegId::RSI
        } else if id == 7 {
            RegId::RDI
        } else if id == 8 {
            RegId::R8
        } else if id == 9 {
            RegId::R9
        } else if id == 10 {
            RegId::R10
        } else if id == 11 {
            RegId::R11
        } else if id == 12 {
            RegId::R12
        } else if id == 13 {
            RegId::R13
        } else if id == 14 {
            RegId::R14
        } else {
            RegId::R15
        }
    }

    fn as_number(&self) -> (r: u8)
        ensures
            r == self.spec_num(),
    {
        match *self {
            RegId::RAX => 0x00,
            RegId::RCX => 0x01,
            RegId::RDX => 0x02,
            RegId::RBX => 0x03,
            RegId::RSP => 0x04,
            RegId::RBP => 0x05,
            RegId::RSI => 0x06,
            RegId::RDI => 0x07,
            RegId::R8 => 0x08,
            RegId::R9 => 0x09,
            RegId::R10 => 0x0A,
            RegId::R11 => 0x0B,
            RegId::R12 => 0x0C,
            RegId::R13 => 0x0D,
            RegId::R14 => 0x0E,
            RegId::R15 => 0x0F,
            RegId::RIP => 0x15,
            RegId::AH => 0x24,
            RegId::CH => 0x25,
            RegId::DH => 0x26,
            RegId::BH => 0x27,
            RegId::ST0 => 0x30,
            RegId::ST1 => 0x31,
            RegId::ST2 => 0x32,
            RegId::ST3 => 0x33,
            RegId::ST4 => 0x34,
            RegId::ST5 => 0x35,
            RegId::ST6 => 0x36,
            RegId::ST7 => 0x37,
            RegId::MMX0 => 0x40,
            RegId::MMX1 => 0x41,
            RegId::MMX2 => 0x42,
            RegId::MMX3 => 0x43,
            RegId::MMX4 => 0x44,
            RegId::MMX5 => 0x45,
            RegId::MMX6 => 0x46,
            RegId::MMX7 => 0x47,
            RegId::XMM0 => 0x50,
            RegId::XMM1 => 0x51,
            RegId::XMM2 => 0x52,
            RegId::XMM3 => 0x53,
            RegId::XMM4 => 0x54,
            RegId::XMM5 => 0x55,
            RegId::XMM6 => 0x56,
            RegId::XMM7 => 0x57,
            RegId::XMM8 => 0x58,
            RegId::XMM9 => 0x59,
            RegId::XMM10 => 0x5A,
            RegId::XMM11 => 0x5B,
            RegId::XMM12 => 0x5C,
            RegId::XMM13 => 0x5D,
            RegId::XMM14 => 0x5E,
            RegId::XMM15 => 0x5F,
            RegId::ES => 0x60,
            RegId::CS => 0x61,
            RegId::SS => 0x62,
            RegId::DS => 0x63,
            RegId::FS => 0x64,
            RegId::GS => 0x65,
            RegId::CR0 => 0x70,
            RegId::CR1 => 0x71,
            RegId::CR2 => 0x72,
            RegId::CR3 => 0x73,
            RegId::CR4 => 0x74,
            RegId::CR5 => 0x75,
            RegId::CR6 => 0x76,
            RegId::CR7 => 0x77,
            RegId::CR8 => 0x78,
            RegId::CR9 => 0x79,
            RegId::CR10 => 0x7A,
            RegId::CR11 => 0x7B,
            RegId::CR12 => 0x7C,
            RegId::CR13 => 0x7D,
            RegId::CR14 => 0x7E,
            RegId::CR15 => 0x7F,
            RegId::DR0 => 0x80,
            RegId::DR1 => 0x81,
            RegId::DR2 => 0x82,
            RegId::DR3 => 0x83,
            RegId::DR4 => 0x84,
            RegId::DR5 => 0x85,
            RegId::DR6 => 0x86,
            RegId::DR7 => 0x87,
            RegId::DR8 => 0x88,
            RegId::DR9 => 0x89,
            RegId::DR10 => 0x8A,
            RegId::DR11 => 0x8B,
            RegId::DR12 => 0x8C,
            RegId::DR13 => 0x8D,
            RegId::DR14 => 0x8E,
            RegId::DR15 => 0x8F,
        }
    }

    pub fn code(&self) -> (r: u8)
        ensures
            r == self.spec_code(),
    {
        self.as_number() & 0xF
    }

    pub fn family(&self) -> (r: RegFamily)
        ensures
            r == self.spec_family(),
    {
        match *self {
            RegId::RAX | RegId::RCX | RegId::RDX | RegId::RBX | RegId::RSP | RegId::RBP
                | RegId::RSI | RegId::RDI | RegId::R8 | RegId::R9 | RegId::R10 | RegId::R11
                | RegId::R12 | RegId::R13 | RegId::R14 | RegId::R15 => RegFamily::LEGACY,
            RegId::RIP => RegFamily::RIP,
            RegId::AH | RegId::CH | RegId::DH | RegId::BH => RegFamily::HIGHBYTE,
            RegId::ST0 | RegId::ST1 | RegId::ST2 | RegId::ST3 | RegId::ST4 | RegId::ST5
                | RegId::ST6 | RegId::ST7 => RegFamily::FP,
            RegId::MMX0 | RegId::MMX1 | RegId::MMX2 | RegId::MMX3 | RegId::MMX4 | RegId::MMX5
                | RegId::MMX6 | RegId::MMX7 => RegFamily::MMX,
            RegId::XMM0 | RegId::XMM1 | RegId::XMM2 | RegId::XMM3 | RegId::XMM4 | RegId::XMM5
                | RegId::XMM6 | RegId::XMM7 | RegId::XMM8 | RegId::XMM9 | RegId::XMM10
                | RegId::XMM11 | RegId::XMM12 | RegId::XMM13 | RegId::XMM14
                | RegId::XMM15 => RegFamily::XMM,
            RegId::ES | RegId::CS | RegId::SS | RegId::DS | RegId::FS
                | RegId::GS => RegFamily::SEGMENT,
            RegId::CR0 | RegId::CR1 | RegId::CR2 | RegId::CR3 | RegId::CR4 | RegId::CR5
                | RegId::CR6 | RegId::CR7 | RegId::CR8 | RegId::CR9 | RegId::CR10 | RegId::CR11
                | RegId::CR12 | RegId::CR13 | RegId::CR14 | RegId::CR15 => RegFamily::CONTROL,
            RegId::DR0 | RegId::DR1 | RegId::DR2 | RegId::DR3 | RegId::DR4 | RegId::DR5
                | RegId::DR6 | RegId::DR7 | RegId::DR8 | RegId::DR9 | RegId::DR10 | RegId::DR11
                | RegId::DR12 | RegId::DR13 | RegId::DR14 | RegId::DR15 => RegFamily::DEBUG,
        }
    }

    pub fn from_number(id: u8) -> (r: RegId)
        requires
            id <= 15,
        ensures
            r == RegId::spec_from_number(id),
    {
        if id == 0 {
            RegId::RAX
        } else if id == 1 {
            RegId::RCX
        } else if id == 2 {
            RegId::RDX
        } else if id == 3 {
            RegId::RBX
        } else if id == 4 {
            RegId::RSP
        } else if id == 5 {
            RegId::RBP
        } else if id == 6 {
            RegId::RSI
        } else if id == 7 {
            RegId::RDI
        } else if id == 8 {
            RegId::R8
        } else if id == 9 {
            RegId::R9
        } else if id == 10 {
            RegId::R10
        } else if id == 11 {
            RegId::R11
        } else if id == 12 {
            RegId::R12
        } else if id == 13 {
            RegId::R13
        } else if id == 14 {
            RegId::R14
        } else {
            RegId::R15
        }
    }
}

impl Size {
    pub open spec fn spec_bytes(self) -> u8 {
        match self {
            Size::BYTE => 1,
            Size::WORD => 2,
            Size::DWORD => 4,
            Size::QWORD => 8,
            Size::PWORD => 10,
            Size::OWORD => 16,
            Size::HWORD => 32,
        }
    }

    pub fn in_bytes(&self) -> (r: u8)
        ensures
            r == self.spec_bytes(),
    {
        match *self {
            Size::BYTE => 1,
            Size::WORD => 2,
            Size::DWORD => 4,
            Size::QWORD => 8,
            Size::PWORD => 10,
            Size::OWORD => 16,
            Size::HWORD => 32,
        }
    }
}

} // verus!
