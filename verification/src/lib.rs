//! An in-process x86-64 assembler back end: an ordered statement log of
//! machine-code bytes, immediates, labels and alignment requests is resolved
//! in two passes into concrete code plus a function-offset table, and the
//! result is serialized into a relocatable object container (COFF or ELF)
//! framed as a single member of a Unix `ar` archive.

use vstd::prelude::*;

pub mod coff;
pub mod elf;
pub mod emit;
pub mod object_file;
pub mod x64;

verus! {

/// The supported target architectures, each owning its assembler.
pub enum Arch {
    X64(x64::assembler::Assembler),
}

/// A fresh assembler for a new object. Only x86-64 is supported; the object
/// name is fixed by the emission layer.
pub fn new(_object_name: &str) -> (r: Arch)
    ensures
        r matches Arch::X64(a) && a.inner.buffer@ == Seq::<x64::assembler::Stmt>::empty()
            && a.inner.prefixes@ == Seq::<x64::parser::Ident>::empty() && a.inner.wf(),
{
    Arch::X64(x64::assembler::Assembler::new())
}

} // verus!
