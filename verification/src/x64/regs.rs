//! Named register labels at each operand width, convertible to sized
//! `Register` values and operands, plus the rip-relative jump-operand
//! constructors.

use crate::x64::assembler::CollectableToArgs;
use crate::x64::parser::Arg;
use crate::x64::parser::ImmediateValue;
use crate::x64::parser::JumpTarget;
use crate::x64::parser::JumpType;
use crate::x64::parser::MemoryRef;
use crate::x64::parser::RegId;
use crate::x64::parser::RegKind;
use crate::x64::parser::Register;
use crate::x64::parser::Size;
use vstd::prelude::*;

verus! {

#[derive(Debug, Copy, Clone, Eq, PartialEq, Structural, Hash)]
pub enum Byte {
    Al,
    Cl,
    Dl,
    Bl,
    Spl,
    Rpl,
    Sil,
    Dil,
    R0b,
    R1b,
    R2b,
    R3b,
    R8b,
    R9b,
    R10b,
    R11b,
    R12b,
    R13b,
    R14b,
    R15b,
}

impl Byte {
    pub open spec fn spec_register(self) -> Register {
        match self {
            Byte::Al => Register { size: Size::BYTE, kind: RegKind::Static(RegId::RAX) },
            Byte::Cl => Register { size: Size::BYTE, kind: RegKind::Static(RegId::RCX) },
            Byte::Dl => Register { size: Size::BYTE, kind: RegKind::Static(RegId::RDX) },
            Byte::Bl => Register { size: Size::BYTE, kind: RegKind::Static(RegId::RBX) },
            Byte::Spl => Register { size: Size::BYTE, kind: RegKind::Static(RegId::RSP) },
            Byte::Rpl => Register { size: Size::BYTE, kind: RegKind::Static(RegId::RBP) },
            Byte::Sil => Register { size: Size::BYTE, kind: RegKind::Static(RegId::RSI) },
            Byte::Dil => Register { size: Size::BYTE, kind: RegKind::Static(RegId::RDI) },
            Byte::R0b => Register { size: Size::BYTE, kind: RegKind::Static(RegId::RAX) },
            Byte::R1b => Register { size: Size::BYTE, kind: RegKind::Static(RegId::RCX) },
            Byte::R2b => Register { size: Size::BYTE, kind: RegKind::Static(RegId::RDX) },
            Byte::R3b => Register { size: Size::BYTE, kind: RegKind::Static(RegId::RBX) },
            Byte::R8b => Register { size: Size::BYTE, kind: RegKind::Static(RegId::R8) },
            Byte::R9b => Register { size: Size::BYTE, kind: RegKind::Static(RegId::R9) },
            Byte::R10b => Register { size: Size::BYTE, kind: RegKind::Static(RegId::R10) },
            Byte::R11b => Register { size: Size::BYTE, kind: RegKind::Static(RegId::R11) },
            Byte::R12b => Register { size: Size::BYTE, kind: RegKind::Static(RegId::R12) },
            Byte::R13b => Register { size: Size::BYTE, kind: RegKind::Static(RegId::R13) },
            Byte::R14b => Register { size: Size::BYTE, kind: RegKind::Static(RegId::R14) },
            Byte::R15b => Register { size: Size::BYTE, kind: RegKind::Static(RegId::R15) },
        }
    }

    /// The register this label names, first match by register code.
    pub open spec fn spec_from_index(index: usize) -> Byte {
        if index == 0 {
            Byte::Al
        } else if index == 1 {
            Byte::Cl
        } else if index == 2 {
            Byte::Dl
        } else if index == 3 {
            Byte::Bl
        } else if index == 4 {
            Byte::Spl
        } else if index == 5 {
            Byte::Rpl
        } else if index == 6 {
            Byte::Sil
        } else if index == 7 {
            Byte::Dil
        } else if index == 8 {
            Byte::R8b
        } else if index == 9 {
            Byte::R9b
        } else if index == 10 {
            Byte::R10b
        } else if index == 11 {
            Byte::R11b
        } else if index == 12 {
            Byte::R12b
        } else if index == 13 {
            Byte::R13b
        } else if index == 14 {
            Byte::R14b
        } else {
            Byte::R15b
        }
    }

    pub fn from_index(index: usize) -> (r: Byte)
        requires
            index <= 15,
        ensures
            r == Byte::spec_from_index(index),
    {
        if index == 0 {
            Byte::Al
        } else if index == 1 {
            Byte::Cl
        } else if index == 2 {
            Byte::Dl
        } else if index == 3 {
            Byte::Bl
        } else if index == 4 {
            Byte::Spl
        } else if index == 5 {
            Byte::Rpl
        } else if index == 6 {
            Byte::Sil
        } else if index == 7 {
            Byte::Dil
        } else if index == 8 {
            Byte::R8b
        } else if index == 9 {
            Byte::R9b
        } else if index == 10 {
            Byte::R10b
        } else if index == 11 {
            Byte::R11b
        } else if index == 12 {
            Byte::R12b
        } else if index == 13 {
            Byte::R13b
        } else if index == 14 {
            Byte::R14b
        } else {
            Byte::R15b
        }
    }

    pub fn to_register(self) -> (r: Register)
        ensures
            r == self.spec_register(),
    {
        match self {
            Byte::Al => Register { size: Size::BYTE, kind: RegKind::Static(RegId::RAX) },
            Byte::Cl => Register { size: Size::BYTE, kind: RegKind::Static(RegId::RCX) },
            Byte::Dl => Register { size: Size::BYTE, kind: RegKind::Static(RegId::RDX) },
            Byte::Bl => Register { size: Size::BYTE, kind: RegKind::Static(RegId::RBX) },
            Byte::Spl => Register { size: Size::BYTE, kind: RegKind::Static(RegId::RSP) },
            Byte::Rpl => Register { size: Size::BYTE, kind: RegKind::Static(RegId::RBP) },
            Byte::Sil => Register { size: Size::BYTE, kind: RegKind::Static(RegId::RSI) },
            Byte::Dil => Register { size: Size::BYTE, kind: RegKind::Static(RegId::RDI) },
            Byte::R0b => Register { size: Size::BYTE, kind: RegKind::Static(RegId::RAX) },
            Byte::R1b => Register { size: Size::BYTE, kind: RegKind::Static(RegId::RCX) },
            Byte::R2b => Register { size: Size::BYTE, kind: RegKind::Static(RegId::RDX) },
            Byte::R3b => Register { size: Size::BYTE, kind: RegKind::Static(RegId::RBX) },
            Byte::R8b => Register { size: Size::BYTE, kind: RegKind::Static(RegId::R8) },
            Byte::R9b => Register { size: Size::BYTE, kind: RegKind::Static(RegId::R9) },
            Byte::R10b => Register { size: Size::BYTE, kind: RegKind::Static(RegId::R10) },
            Byte::R11b => Register { size: Size::BYTE, kind: RegKind::Static(RegId::R11) },
            Byte::R12b => Register { size: Size::BYTE, kind: RegKind::Static(RegId::R12) },
            Byte::R13b => Register { size: Size::BYTE, kind: RegKind::Static(RegId::R13) },
            Byte::R14b => Register { size: Size::BYTE, kind: RegKind::Static(RegId::R14) },
            Byte::R15b => Register { size: Size::BYTE, kind: RegKind::Static(RegId::R15) },
        }
    }

    pub fn to_arg(self) -> (r: Arg)
        ensures
            r == Arg::Direct(self.spec_register()),
    {
        Arg::Direct(self.to_register())
    }
}

impl CollectableToArgs for Byte {
    open spec fn arg_seq(self) -> Seq<Arg> {
        seq![Arg::Direct(self.spec_register())]
    }

    fn collect_into(self, args: &mut Vec<Arg>) {
        let a = self.to_arg();
        args.push(a);
        proof {
            assert(args@ =~= old(args)@ + self.arg_seq());
        }
    }
}

#[derive(Debug, Copy, Clone, Eq, PartialEq, Structural, Hash)]
pub enum DWord {
    Eax,
    Ecx,
    Edx,
    Ebx,
    Esp,
    Ebp,
    Esi,
    Edi,
    R0d,
    R1d,
    R2d,
    R3d,
    R4d,
    R5d,
    R6d,
    R7d,
    R8d,
    R9d,
    R10d,
    R11d,
    R12d,
    R13d,
    R14d,
    R15d,
}

impl DWord {
    pub open spec fn spec_register(self) -> Register {
        match self {
            DWord::Eax => Register { size: Size::DWORD, kind: RegKind::Static(RegId::RAX) },
            DWord::Ecx => Register { size: Size::DWORD, kind: RegKind::Static(RegId::RCX) },
            DWord::Edx => Register { size: Size::DWORD, kind: RegKind::Static(RegId::RDX) },
            DWord::Ebx => Register { size: Size::DWORD, kind: RegKind::Static(RegId::RBX) },
            DWord::Esp => Register { size: Size::DWORD, kind: RegKind::Static(RegId::RSP) },
            DWord::Ebp => Register { size: Size::DWORD, kind: RegKind::Static(RegId::RBP) },
            DWord::Esi => Register { size: Size::DWORD, kind: RegKind::Static(RegId::RSI) },
            DWord::Edi => Register { size: Size::DWORD, kind: RegKind::Static(RegId::RDI) },
            DWord::R0d => Register { size: Size::DWORD, kind: RegKind::Static(RegId::RAX) },
            DWord::R1d => Register { size: Size::DWORD, kind: RegKind::Static(RegId::RCX) },
            DWord::R2d => Register { size: Size::DWORD, kind: RegKind::Static(RegId::RDX) },
            DWord::R3d => Register { size: Size::DWORD, kind: RegKind::Static(RegId::RBX) },
            DWord::R4d => Register { size: Size::DWORD, kind: RegKind::Static(RegId::RSP) },
            DWord::R5d => Register { size: Size::DWORD, kind: RegKind::Static(RegId::RBP) },
            DWord::R6d => Register { size: Size::DWORD, kind: RegKind::Static(RegId::RSI) },
            DWord::R7d => Register { size: Size::DWORD, kind: RegKind::Static(RegId::RDI) },
            DWord::R8d => Register { size: Size::DWORD, kind: RegKind::Static(RegId::R8) },
            DWord::R9d => Register { size: Size::DWORD, kind: RegKind::Static(RegId::R9) },
            DWord::R10d => Register { size: Size::DWORD, kind: RegKind::Static(RegId::R10) },
            DWord::R11d => Register { size: Size::DWORD, kind: RegKind::Static(RegId::R11) },
            DWord::R12d => Register { size: Size::DWORD, kind: RegKind::Static(RegId::R12) },
            DWord::R13d => Register { size: Size::DWORD, kind: RegKind::Static(RegId::R13) },
            DWord::R14d => Register { size: Size::DWORD, kind: RegKind::Static(RegId::R14) },
            DWord::R15d => Register { size: Size::DWORD, kind: RegKind::Static(RegId::R15) },
        }
    }

    /// The register this label names, first match by register code.
    pub open spec fn spec_from_index(index: usize) -> DWord {
        if index == 0 {
            DWord::Eax
        } else if index == 1 {
            DWord::Ecx
        } else if index == 2 {
            DWord::Edx
        } else if index == 3 {
            DWord::Ebx
        } else if index == 4 {
            DWord::Esp
        } else if index == 5 {
            DWord::Ebp
        } else if index == 6 {
            DWord::Esi
        } else if index == 7 {
            DWord::Edi
        } else if index == 8 {
            DWord::R8d
        } else if index == 9 {
            DWord::R9d
        } else if index == 10 {
            DWord::R10d
        } else if index == 11 {
            DWord::R11d
        } else if index == 12 {
            DWord::R12d
        } else if index == 13 {
            DWord::R13d
        } else if index == 14 {
            DWord::R14d
        } else {
            DWord::R15d
        }
    }

    pub fn from_index(index: usize) -> (r: DWord)
        requires
            index <= 15,
        ensures
            r == DWord::spec_from_index(index),
    {
        if index == 0 {
            DWord::Eax
        } else if index == 1 {
            DWord::Ecx
        } else if index == 2 {
            DWord::Edx
        } else if index == 3 {
            DWord::Ebx
        } else if index == 4 {
            DWord::Esp
        } else if index == 5 {
            DWord::Ebp
        } else if index == 6 {
            DWord::Esi
        } else if index == 7 {
            DWord::Edi
        } else if index == 8 {
            DWord::R8d
        } else if index == 9 {
            DWord::R9d
        } else if index == 10 {
            DWord::R10d
        } else if index == 11 {
            DWord::R11d
        } else if index == 12 {
            DWord::R12d
        } else if index == 13 {
            DWord::R13d
        } else if index == 14 {
            DWord::R14d
        } else {
            DWord::R15d
        }
    }

    pub fn to_register(self) -> (r: Register)
        ensures
            r == self.spec_register(),
    {
        match self {
            DWord::Eax => Register { size: Size::DWORD, kind: RegKind::Static(RegId::RAX) },
            DWord::Ecx => Register { size: Size::DWORD, kind: RegKind::Static(RegId::RCX) },
            DWord::Edx => Register { size: Size::DWORD, kind: RegKind::Static(RegId::RDX) },
            DWord::Ebx => Register { size: Size::DWORD, kind: RegKind::Static(RegId::RBX) },
            DWord::Esp => Register { size: Size::DWORD, kind: RegKind::Static(RegId::RSP) },
            DWord::Ebp => Register { size: Size::DWORD, kind: RegKind::Static(RegId::RBP) },
            DWord::Esi => Register { size: Size::DWORD, kind: RegKind::Static(RegId::RSI) },
            DWord::Edi => Register { size: Size::DWORD, kind: RegKind::Static(RegId::RDI) },
            DWord::R0d => Register { size: Size::DWORD, kind: RegKind::Static(RegId::RAX) },
            DWord::R1d => Register { size: Size::DWORD, kind: RegKind::Static(RegId::RCX) },
            DWord::R2d => Register { size: Size::DWORD, kind: RegKind::Static(RegId::RDX) },
            DWord::R3d => Register { size: Size::DWORD, kind: RegKind::Static(RegId::RBX) },
            DWord::R4d => Register { size: Size::DWORD, kind: RegKind::Static(RegId::RSP) },
            DWord::R5d => Register { size: Size::DWORD, kind: RegKind::Static(RegId::RBP) },
            DWord::R6d => Register { size: Size::DWORD, kind: RegKind::Static(RegId::RSI) },
            DWord::R7d => Register { size: Size::DWORD, kind: RegKind::Static(RegId::RDI) },
            DWord::R8d => Register { size: Size::DWORD, kind: RegKind::Static(RegId::R8) },
            DWord::R9d => Register { size: Size::DWORD, kind: RegKind::Static(RegId::R9) },
            DWord::R10d => Register { size: Size::DWORD, kind: RegKind::Static(RegId::R10) },
            DWord::R11d => Register { size: Size::DWORD, kind: RegKind::Static(RegId::R11) },
            DWord::R12d => Register { size: Size::DWORD, kind: RegKind::Static(RegId::R12) },
            DWord::R13d => Register { size: Size::DWORD, kind: RegKind::Static(RegId::R13) },
            DWord::R14d => Register { size: Size::DWORD, kind: RegKind::Static(RegId::R14) },
            DWord::R15d => Register { size: Size::DWORD, kind: RegKind::Static(RegId::R15) },
        }
    }

    pub fn to_arg(self) -> (r: Arg)
        ensures
            r == Arg::Direct(self.spec_register()),
    {
        Arg::Direct(self.to_register())
    }
}

impl CollectableToArgs for DWord {
    open spec fn arg_seq(self) -> Seq<Arg> {
        seq![Arg::Direct(self.spec_register())]
    }

    fn collect_into(self, args: &mut Vec<Arg>) {
        let a = self.to_arg();
        args.push(a);
        proof {
            assert(args@ =~= old(args)@ + self.arg_seq());
        }
    }
}

#[derive(Debug, Copy, Clone, Eq, PartialEq, Structural, Hash)]
pub enum QWord {
    Rax,
    Rcx,
    Rdx,
    Rbx,
    Rsp,
    Rbp,
    Rsi,
    Rdi,
    R0,
    R1,
    R2,
    R3,
    R4,
    R5,
    R6,
    R7,
    R8,
    R9,
    R10,
    R11,
    R12,
    R13,
    R14,
    R15,
}

impl QWord {
    pub open spec fn spec_register(self) -> Register {
        match self {
            QWord::Rax => Register { size: Size::QWORD, kind: RegKind::Static(RegId::RAX) },
            QWord::Rcx => Register { size: Size::QWORD, kind: RegKind::Static(RegId::RCX) },
            QWord::Rdx => Register { size: Size::QWORD, kind: RegKind::Static(RegId::RDX) },
            QWord::Rbx => Register { size: Size::QWORD, kind: RegKind::Static(RegId::RBX) },
            QWord::Rsp => Register { size: Size::QWORD, kind: RegKind::Static(RegId::RSP) },
            QWord::Rbp => Register { size: Size::QWORD, kind: RegKind::Static(RegId::RBP) },
            QWord::Rsi => Register { size: Size::QWORD, kind: RegKind::Static(RegId::RSI) },
            QWord::Rdi => Register { size: Size::QWORD, kind: RegKind::Static(RegId::RDI) },
            QWord::R0 => Register { size: Size::QWORD, kind: RegKind::Static(RegId::RAX) },
            QWord::R1 => Register { size: Size::QWORD, kind: RegKind::Static(RegId::RCX) },
            QWord::R2 => Register { size: Size::QWORD, kind: RegKind::Static(RegId::RDX) },
            QWord::R3 => Register { size: Size::QWORD, kind: RegKind::Static(RegId::RBX) },
            QWord::R4 => Register { size: Size::QWORD, kind: RegKind::Static(RegId::RSP) },
            QWord::R5 => Register { size: Size::QWORD, kind: RegKind::Static(RegId::RBP) },
            QWord::R6 => Register { size: Size::QWORD, kind: RegKind::Static(RegId::RSI) },
            QWord::R7 => Register { size: Size::QWORD, kind: RegKind::Static(RegId::RDI) },
            QWord::R8 => Register { size: Size::QWORD, kind: RegKind::Static(RegId::R8) },
            QWord::R9 => Register { size: Size::QWORD, kind: RegKind::Static(RegId::R9) },
            QWord::R10 => Register { size: Size::QWORD, kind: RegKind::Static(RegId::R10) },
            QWord::R11 => Register { size: Size::QWORD, kind: RegKind::Static(RegId::R11) },
            QWord::R12 => Register { size: Size::QWORD, kind: RegKind::Static(RegId::R12) },
            QWord::R13 => Register { size: Size::QWORD, kind: RegKind::Static(RegId::R13) },
            QWord::R14 => Register { size: Size::QWORD, kind: RegKind::Static(RegId::R14) },
            QWord::R15 => Register { size: Size::QWORD, kind: RegKind::Static(RegId::R15) },
        }
    }

    /// The register this label names, first match by register code.
    pub open spec fn spec_from_index(index: usize) -> QWord {
        if index == 0 {
            QWord::Rax
        } else if index == 1 {
            QWord::Rcx
        } else if index == 2 {
            QWord::Rdx
        } else if index == 3 {
            QWord::Rbx
        } else if index == 4 {
            QWord::Rsp
        } else if index == 5 {
            QWord::Rbp
        } else if index == 6 {
            QWord::Rsi
        } else if index == 7 {
            QWord::Rdi
        } else if index == 8 {
            QWord::R8
        } else if index == 9 {
            QWord::R9
        } else if index == 10 {
            QWord::R10
        } else if index == 11 {
            QWord::R11
        } else if index == 12 {
            QWord::R12
        } else if index == 13 {
            QWord::R13
        } else if index == 14 {
            QWord::R14
        } else {
            QWord::R15
        }
    }

    pub fn from_index(index: usize) -> (r: QWord)
        requires
            index <= 15,
        ensures
            r == QWord::spec_from_index(index),
    {
        if index == 0 {
            QWord::Rax
        } else if index == 1 {
            QWord::Rcx
        } else if index == 2 {
            QWord::Rdx
        } else if index == 3 {
            QWord::Rbx
        } else if index == 4 {
            QWord::Rsp
        } else if index == 5 {
            QWord::Rbp
        } else if index == 6 {
            QWord::Rsi
        } else if index == 7 {
            QWord::Rdi
        } else if index == 8 {
            QWord::R8
        } else if index == 9 {
            QWord::R9
        } else if index == 10 {
            QWord::R10
        } else if index == 11 {
            QWord::R11
        } else if index == 12 {
            QWord::R12
        } else if index == 13 {
            QWord::R13
        } else if index == 14 {
            QWord::R14
        } else {
            QWord::R15
        }
    }

    pub fn to_register(self) -> (r: Register)
        ensures
            r == self.spec_register(),
    {
        match self {
            QWord::Rax => Register { size: Size::QWORD, kind: RegKind::Static(RegId::RAX) },
            QWord::Rcx => Register { size: Size::QWORD, kind: RegKind::Static(RegId::RCX) },
            QWord::Rdx => Register { size: Size::QWORD, kind: RegKind::Static(RegId::RDX) },
            QWord::Rbx => Register { size: Size::QWORD, kind: RegKind::Static(RegId::RBX) },
            QWord::Rsp => Register { size: Size::QWORD, kind: RegKind::Static(RegId::RSP) },
            QWord::Rbp => Register { size: Size::QWORD, kind: RegKind::Static(RegId::RBP) },
            QWord::Rsi => Register { size: Size::QWORD, kind: RegKind::Static(RegId::RSI) },
            QWord::Rdi => Register { size: Size::QWORD, kind: RegKind::Static(RegId::RDI) },
            QWord::R0 => Register { size: Size::QWORD, kind: RegKind::Static(RegId::RAX) },
            QWord::R1 => Register { size: Size::QWORD, kind: RegKind::Static(RegId::RCX) },
            QWord::R2 => Register { size: Size::QWORD, kind: RegKind::Static(RegId::RDX) },
            QWord::R3 => Register { size: Size::QWORD, kind: RegKind::Static(RegId::RBX) },
            QWord::R4 => Register { size: Size::QWORD, kind: RegKind::Static(RegId::RSP) },
            QWord::R5 => Register { size: Size::QWORD, kind: RegKind::Static(RegId::RBP) },
            QWord::R6 => Register { size: Size::QWORD, kind: RegKind::Static(RegId::RSI) },
            QWord::R7 => Register { size: Size::QWORD, kind: RegKind::Static(RegId::RDI) },
            QWord::R8 => Register { size: Size::QWORD, kind: RegKind::Static(RegId::R8) },
            QWord::R9 => Register { size: Size::QWORD, kind: RegKind::Static(RegId::R9) },
            QWord::R10 => Register { size: Size::QWORD, kind: RegKind::Static(RegId::R10) },
            QWord::R11 => Register { size: Size::QWORD, kind: RegKind::Static(RegId::R11) },
            QWord::R12 => Register { size: Size::QWORD, kind: RegKind::Static(RegId::R12) },
            QWord::R13 => Register { size: Size::QWORD, kind: RegKind::Static(RegId::R13) },
            QWord::R14 => Register { size: Size::QWORD, kind: RegKind::Static(RegId::R14) },
            QWord::R15 => Register { size: Size::QWORD, kind: RegKind::Static(RegId::R15) },
        }
    }

    pub fn to_arg(self) -> (r: Arg)
        ensures
            r == Arg::Direct(self.spec_register()),
    {
        Arg::Direct(self.to_register())
    }
}

impl CollectableToArgs for QWord {
    open spec fn arg_seq(self) -> Seq<Arg> {
        seq![Arg::Direct(self.spec_register())]
    }

    fn collect_into(self, args: &mut Vec<Arg>) {
        let a = self.to_arg();
        args.push(a);
        proof {
            assert(args@ =~= old(args)@ + self.arg_seq());
        }
    }
}

#[derive(Debug, Copy, Clone, Eq, PartialEq, Structural, Hash)]
pub enum OWord {
    Xmm0,
    Xmm1,
    Xmm2,
    Xmm3,
    Xmm4,
    Xmm5,
    Xmm6,
    Xmm7,
    Xmm8,
    Xmm9,
    Xmm10,
    Xmm11,
    Xmm12,
    Xmm13,
    Xmm14,
    Xmm15,
}

impl OWord {
    pub open spec fn spec_register(self) -> Register {
        match self {
            OWord::Xmm0 => Register { size: Size::OWORD, kind: RegKind::Static(RegId::XMM0) },
            OWord::Xmm1 => Register { size: Size::OWORD, kind: RegKind::Static(RegId::XMM1) },
            OWord::Xmm2 => Register { size: Size::OWORD, kind: RegKind::Static(RegId::XMM2) },
            OWord::Xmm3 => Register { size: Size::OWORD, kind: RegKind::Static(RegId::XMM3) },
            OWord::Xmm4 => Register { size: Size::OWORD, kind: RegKind::Static(RegId::XMM4) },
            OWord::Xmm5 => Register { size: Size::OWORD, kind: RegKind::Static(RegId::XMM5) },
            OWord::Xmm6 => Register { size: Size::OWORD, kind: RegKind::Static(RegId::XMM6) },
            OWord::Xmm7 => Register { size: Size::OWORD, kind: RegKind::Static(RegId::XMM7) },
            OWord::Xmm8 => Register { size: Size::OWORD, kind: RegKind::Static(RegId::XMM8) },
            OWord::Xmm9 => Register { size: Size::OWORD, kind: RegKind::Static(RegId::XMM9) },
            OWord::Xmm10 => Register { size: Size::OWORD, kind: RegKind::Static(RegId::XMM10) },
            OWord::Xmm11 => Register { size: Size::OWORD, kind: RegKind::Static(RegId::XMM11) },
            OWord::Xmm12 => Register { size: Size::OWORD, kind: RegKind::Static(RegId::XMM12) },
            OWord::Xmm13 => Register { size: Size::OWORD, kind: RegKind::Static(RegId::XMM13) },
            OWord::Xmm14 => Register { size: Size::OWORD, kind: RegKind::Static(RegId::XMM14) },
            OWord::Xmm15 => Register { size: Size::OWORD, kind: RegKind::Static(RegId::XMM15) },
        }
    }

    /// The register this label names, first match by register code.
    pub open spec fn spec_from_index(index: usize) -> OWord {
        if index == 0 {
            OWord::Xmm0
        } else if index == 1 {
            OWord::Xmm1
        } else if index == 2 {
            OWord::Xmm2
        } else if index == 3 {
            OWord::Xmm3
        } else if index == 4 {
            OWord::Xmm4
        } else if index == 5 {
            OWord::Xmm5
        } else if index == 6 {
            OWord::Xmm6
        } else if index == 7 {
            OWord::Xmm7
        } else if index == 8 {
            OWord::Xmm8
        } else if index == 9 {
            OWord::Xmm9
        } else if index == 10 {
            OWord::Xmm10
        } else if index == 11 {
            OWord::Xmm11
        } else if index == 12 {
            OWord::Xmm12
        } else if index == 13 {
            OWord::Xmm13
        } else if index == 14 {
            OWord::Xmm14
        } else {
            OWord::Xmm15
        }
    }

    pub fn from_index(index: usize) -> (r: OWord)
        requires
            index <= 15,
        ensures
            r == OWord::spec_from_index(index),
    {
        if index == 0 {
            OWord::Xmm0
        } else if index == 1 {
            OWord::Xmm1
        } else if index == 2 {
            OWord::Xmm2
        } else if index == 3 {
            OWord::Xmm3
        } else if index == 4 {
            OWord::Xmm4
        } else if index == 5 {
            OWord::Xmm5
        } else if index == 6 {
            OWord::Xmm6
        } else if index == 7 {
            OWord::Xmm7
        } else if index == 8 {
            OWord::Xmm8
        } else if index == 9 {
            OWord::Xmm9
        } else if index == 10 {
            OWord::Xmm10
        } else if index == 11 {
            OWord::Xmm11
        } else if index == 12 {
            OWord::Xmm12
        } else if index == 13 {
            OWord::Xmm13
        } else if index == 14 {
            OWord::Xmm14
        } else {
            OWord::Xmm15
        }
    }

    pub fn to_register(self) -> (r: Register)
        ensures
            r == self.spec_register(),
    {
        match self {
            OWord::Xmm0 => Register { size: Size::OWORD, kind: RegKind::Static(RegId::XMM0) },
            OWord::Xmm1 => Register { size: Size::OWORD, kind: RegKind::Static(RegId::XMM1) },
            OWord::Xmm2 => Register { size: Size::OWORD, kind: RegKind::Static(RegId::XMM2) },
            OWord::Xmm3 => Register { size: Size::OWORD, kind: RegKind::Static(RegId::XMM3) },
            OWord::Xmm4 => Register { size: Size::OWORD, kind: RegKind::Static(RegId::XMM4) },
            OWord::Xmm5 => Register { size: Size::OWORD, kind: RegKind::Static(RegId::XMM5) },
            OWord::Xmm6 => Register { size: Size::OWORD, kind: RegKind::Static(RegId::XMM6) },
            OWord::Xmm7 => Register { size: Size::OWORD, kind: RegKind::Static(RegId::XMM7) },
            OWord::Xmm8 => Register { size: Size::OWORD, kind: RegKind::Static(RegId::XMM8) },
            OWord::Xmm9 => Register { size: Size::OWORD, kind: RegKind::Static(RegId::XMM9) },
            OWord::Xmm10 => Register { size: Size::OWORD, kind: RegKind::Static(RegId::XMM10) },
            OWord::Xmm11 => Register { size: Size::OWORD, kind: RegKind::Static(RegId::XMM11) },
            OWord::Xmm12 => Register { size: Size::OWORD, kind: RegKind::Static(RegId::XMM12) },
            OWord::Xmm13 => Register { size: Size::OWORD, kind: RegKind::Static(RegId::XMM13) },
            OWord::Xmm14 => Register { size: Size::OWORD, kind: RegKind::Static(RegId::XMM14) },
            OWord::Xmm15 => Register { size: Size::OWORD, kind: RegKind::Static(RegId::XMM15) },
        }
    }

    pub fn to_arg(self) -> (r: Arg)
        ensures
            r == Arg::Direct(self.spec_register()),
    {
        Arg::Direct(self.to_register())
    }
}

impl CollectableToArgs for OWord {
    open spec fn arg_seq(self) -> Seq<Arg> {
        seq![Arg::Direct(self.spec_register())]
    }

    fn collect_into(self, args: &mut Vec<Arg>) {
        let a = self.to_arg();
        args.push(a);
        proof {
            assert(args@ =~= old(args)@ + self.arg_seq());
        }
    }
}

#[derive(Debug, Copy, Clone, Eq, PartialEq, Structural, Hash)]
pub enum HWord {
    Ymm0,
    Ymm1,
    Ymm2,
    Ymm3,
    Ymm4,
    Ymm5,
    Ymm6,
    Ymm7,
    Ymm8,
    Ymm9,
    Ymm10,
    Ymm11,
    Ymm12,
    Ymm13,
    Ymm14,
    Ymm15,
}

impl HWord {
    pub open spec fn spec_register(self) -> Register {
        match self {
            HWord::Ymm0 => Register { size: Size::HWORD, kind: RegKind::Static(RegId::XMM0) },
            HWord::Ymm1 => Register { size: Size::HWORD, kind: RegKind::Static(RegId::XMM1) },
            HWord::Ymm2 => Register { size: Size::HWORD, kind: RegKind::Static(RegId::XMM2) },
            HWord::Ymm3 => Register { size: Size::HWORD, kind: RegKind::Static(RegId::XMM3) },
            HWord::Ymm4 => Register { size: Size::HWORD, kind: RegKind::Static(RegId::XMM4) },
            HWord::Ymm5 => Register { size: Size::HWORD, kind: RegKind::Static(RegId::XMM5) },
            HWord::Ymm6 => Register { size: Size::HWORD, kind: RegKind::Static(RegId::XMM6) },
            HWord::Ymm7 => Register { size: Size::HWORD, kind: RegKind::Static(RegId::XMM7) },
            HWord::Ymm8 => Register { size: Size::HWORD, kind: RegKind::Static(RegId::XMM8) },
            HWord::Ymm9 => Register { size: Size::HWORD, kind: RegKind::Static(RegId::XMM9) },
            HWord::Ymm10 => Register { size: Size::HWORD, kind: RegKind::Static(RegId::XMM10) },
            HWord::Ymm11 => Register { size: Size::HWORD, kind: RegKind::Static(RegId::XMM11) },
            HWord::Ymm12 => Register { size: Size::HWORD, kind: RegKind::Static(RegId::XMM12) },
            HWord::Ymm13 => Register { size: Size::HWORD, kind: RegKind::Static(RegId::XMM13) },
            HWord::Ymm14 => Register { size: Size::HWORD, kind: RegKind::Static(RegId::XMM14) },
            HWord::Ymm15 => Register { size: Size::HWORD, kind: RegKind::Static(RegId::XMM15) },
        }
    }

    /// The register this label names, first match by register code.
    pub open spec fn spec_from_index(index: usize) -> HWord {
        if index == 0 {
            HWord::Ymm0
        } else if index == 1 {
            HWord::Ymm1
        } else if index == 2 {
            HWord::Ymm2
        } else if index == 3 {
            HWord::Ymm3
        } else if index == 4 {
            HWord::Ymm4
        } else if index == 5 {
            HWord::Ymm5
        } else if index == 6 {
            HWord::Ymm6
        } else if index == 7 {
            HWord::Ymm7
        } else if index == 8 {
            HWord::Ymm8
        } else if index == 9 {
            HWord::Ymm9
        } else if index == 10 {
            HWord::Ymm10
        } else if index == 11 {
            HWord::Ymm11
        } else if index == 12 {
            HWord::Ymm12
        } else if index == 13 {
            HWord::Ymm13
        } else if index == 14 {
            HWord::Ymm14
        } else {
            HWord::Ymm15
        }
    }

    pub fn from_index(index: usize) -> (r: HWord)
        requires
            index <= 15,
        ensures
            r == HWord::spec_from_index(index),
    {
        if index == 0 {
            HWord::Ymm0
        } else if index == 1 {
            HWord::Ymm1
        } else if index == 2 {
            HWord::Ymm2
        } else if index == 3 {
            HWord::Ymm3
        } else if index == 4 {
            HWord::Ymm4
        } else if index == 5 {
            HWord::Ymm5
        } else if index == 6 {
            HWord::Ymm6
        } else if index == 7 {
            HWord::Ymm7
        } else if index == 8 {
            HWord::Ymm8
        } else if index == 9 {
            HWord::Ymm9
        } else if index == 10 {
            HWord::Ymm10
        } else if index == 11 {
            HWord::Ymm11
        } else if index == 12 {
            HWord::Ymm12
        } else if index == 13 {
            HWord::Ymm13
        } else if index == 14 {
            HWord::Ymm14
        } else {
            HWord::Ymm15
        }
    }

    pub fn to_register(self) -> (r: Register)
        ensures
            r == self.spec_register(),
    {
        match self {
            HWord::Ymm0 => Register { size: Size::HWORD, kind: RegKind::Static(RegId::XMM0) },
            HWord::Ymm1 => Register { size: Size::HWORD, kind: RegKind::Static(RegId::XMM1) },
            HWord::Ymm2 => Register { size: Size::HWORD, kind: RegKind::Static(RegId::XMM2) },
            HWord::Ymm3 => Register { size: Size::HWORD, kind: RegKind::Static(RegId::XMM3) },
            HWord::Ymm4 => Register { size: Size::HWORD, kind: RegKind::Static(RegId::XMM4) },
            HWord::Ymm5 => Register { size: Size::HWORD, kind: RegKind::Static(RegId::XMM5) },
            HWord::Ymm6 => Register { size: Size::HWORD, kind: RegKind::Static(RegId::XMM6) },
            HWord::Ymm7 => Register { size: Size::HWORD, kind: RegKind::Static(RegId::XMM7) },
            HWord::Ymm8 => Register { size: Size::HWORD, kind: RegKind::Static(RegId::XMM8) },
            HWord::Ymm9 => Register { size: Size::HWORD, kind: RegKind::Static(RegId::XMM9) },
            HWord::Ymm10 => Register { size: Size::HWORD, kind: RegKind::Static(RegId::XMM10) },
            HWord::Ymm11 => Register { size: Size::HWORD, kind: RegKind::Static(RegId::XMM11) },
            HWord::Ymm12 => Register { size: Size::HWORD, kind: RegKind::Static(RegId::XMM12) },
            HWord::Ymm13 => Register { size: Size::HWORD, kind: RegKind::Static(RegId::XMM13) },
            HWord::Ymm14 => Register { size: Size::HWORD, kind: RegKind::Static(RegId::XMM14) },
            HWord::Ymm15 => Register { size: Size::HWORD, kind: RegKind::Static(RegId::XMM15) },
        }
    }

    pub fn to_arg(self) -> (r: Arg)
        ensures
            r == Arg::Direct(self.spec_register()),
    {
        Arg::Direct(self.to_register())
    }
}

impl CollectableToArgs for HWord {
    open spec fn arg_seq(self) -> Seq<Arg> {
        seq![Arg::Direct(self.spec_register())]
    }

    fn collect_into(self, args: &mut Vec<Arg>) {
        let a = self.to_arg();
        args.push(a);
        proof {
            assert(args@ =~= old(args)@ + self.arg_seq());
        }
    }
}

impl QWord {
    /// The memory operand `[reg]`.
    pub fn value_at(self) -> (r: Arg)
        ensures
            r == Arg::Indirect(
                MemoryRef {
                    index: None,
                    scale: 0,
                    base: Some(self.spec_register()),
                    disp: None,
                    size: None,
                },
            ),
    {
        self.value_at_offset(0)
    }

    /// The memory operand `[reg + offset]`; a zero offset carries no
    /// displacement.
    pub fn value_at_offset(self, offset: i32) -> (r: Arg)
        ensures
            r == Arg::Indirect(
                MemoryRef {
                    index: None,
                    scale: 0,
                    base: Some(self.spec_register()),
                    disp: if offset != 0 {
                        Some(ImmediateValue::I64(offset as i64))
                    } else {
                        None
                    },
                    size: None,
                },
            ),
    {
        Arg::Indirect(
            MemoryRef {
                index: None,
                scale: 0,
                base: Some(self.to_register()),
                disp: if offset != 0 {
                    Some(ImmediateValue::I64(offset as i64))
                } else {
                    None
                },
                size: None,
            },
        )
    }
}

/// A rip-relative displacement operand naming a local jump target.
pub fn rip_relative(target: JumpTarget) -> (r: Arg)
    ensures
        r == Arg::IndirectJumpTarget(JumpType::Forward(target), None::<Size>),
{
    Arg::IndirectJumpTarget(JumpType::Forward(target), None)
}

/// A direct jump-target operand naming a local jump target.
pub fn rip_nonrelative(label: JumpTarget) -> (r: Arg)
    ensures
        r == Arg::JumpTarget(JumpType::Forward(label), None::<Size>),
{
    Arg::JumpTarget(JumpType::Forward(label), None)
}

} // verus!
