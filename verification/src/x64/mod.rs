//! The x86-64 back end: operand model, statement buffer with two-pass label
//! resolution, and the instruction encoder feeding it.

pub mod assembler;
pub mod compiler;
pub mod parser;
pub mod regs;
pub mod x64data;

pub use assembler::Assembler;
pub use assembler::FlaggedAssembler;
pub use regs::rip_nonrelative;
pub use regs::rip_relative;
pub use regs::Byte;
pub use regs::DWord;
pub use regs::HWord;
pub use regs::OWord;
pub use regs::QWord;
