//! The resolved output of assembly: concrete code bytes plus the table of
//! exported function offsets, and its serialization into a relocatable
//! object framed as the single member of a Unix `ar` archive.

use crate::coff;
use crate::coff::coff_bytes;
use crate::coff::name_bytes;
use crate::coff::MACHINE_AMD64;
use crate::coff::section_names_fit;
use crate::coff::Coff;
use crate::coff::CoffV;
use crate::coff::Section;
use crate::coff::SectionV;
use crate::coff::Symbol;
use crate::coff::SymbolV;
use crate::elf;
use crate::elf::elf_bytes;
use crate::elf::Elf;
use crate::elf::ElfV;
use crate::elf::FunctionV;
use crate::emit::dec_bytes;
use crate::emit::push_bytes;
use crate::emit::push_repeat;
use crate::emit::to_decimal;
use vstd::prelude::*;

verus! {

/// A function exported from the assembled code: its offset into the code
/// buffer and its symbol name.
#[derive(Debug)]
pub struct ExportedFunction {
    pub offset: u32,
    pub name: String,
}

#[verifier::ext_equal]
pub struct ExportedFunctionV {
    pub offset: u32,
    pub name: Seq<char>,
}

impl View for ExportedFunction {
    type V = ExportedFunctionV;

    open spec fn view(&self) -> ExportedFunctionV {
        ExportedFunctionV { offset: self.offset, name: self.name@ }
    }
}

/// The resolved result of assembly, input to object-file emission.
#[derive(Debug)]
pub struct ObjectFile {
    pub functions: Vec<ExportedFunction>,
    pub code: Vec<u8>,
}

#[verifier::ext_equal]
pub struct ObjectFileV {
    pub functions: Seq<ExportedFunctionV>,
    pub code: Seq<u8>,
}

impl View for ObjectFile {
    type V = ObjectFileV;

    open spec fn view(&self) -> ObjectFileV {
        ObjectFileV {
            functions: self.functions@.map_values(|f: ExportedFunction| f@),
            code: self.code@,
        }
    }
}

/// The one recoverable failure of archive framing: a member whose size does
/// not fit the 10-character decimal field.
#[derive(Debug, Clone, Copy, PartialEq, Eq, Structural)]
pub enum ArchiveError {
    ArchiveTooLarge,
}

/// `"!<arch>\n"`, the archive's global magic.
pub open spec fn ar_global_magic() -> Seq<u8> {
    seq![0x21u8, 0x3cu8, 0x61u8, 0x72u8, 0x63u8, 0x68u8, 0x3eu8, 0x0au8]
}

/// `"rasm.o/         "`: the member name, space-padded to 16 bytes.
pub open spec fn ar_member_name() -> Seq<u8> {
    seq![
        0x72u8,
        0x61u8,
        0x73u8,
        0x6du8,
        0x2eu8,
        0x6fu8,
        0x2fu8,
        0x20u8,
        0x20u8,
        0x20u8,
        0x20u8,
        0x20u8,
        0x20u8,
        0x20u8,
        0x20u8,
        0x20u8,
    ]
}

/// `"1468364067  "`: a fixed literal in the modification-time field, kept
/// for byte-exact reproducible output rather than a real timestamp.
pub open spec fn ar_timestamp() -> Seq<u8> {
    seq![
        0x31u8,
        0x34u8,
        0x36u8,
        0x38u8,
        0x33u8,
        0x36u8,
        0x34u8,
        0x30u8,
        0x36u8,
        0x37u8,
        0x20u8,
        0x20u8,
    ]
}

/// `"0     "`: the owner and group id fields.
pub open spec fn ar_zero_id() -> Seq<u8> {
    seq![0x30u8, 0x20u8, 0x20u8, 0x20u8, 0x20u8, 0x20u8]
}

/// `"100666  "`: the file-mode field.
pub open spec fn ar_mode() -> Seq<u8> {
    seq![0x31u8, 0x30u8, 0x30u8, 0x36u8, 0x36u8, 0x36u8, 0x20u8, 0x20u8]
}

/// `` "`\n" ``: the member-header end magic.
pub open spec fn ar_end_magic() -> Seq<u8> {
    seq![0x60u8, 0x0au8]
}

/// The 10-byte size field: the member length in decimal ASCII, left
/// justified and padded with trailing spaces.
pub open spec fn ar_size_field(len: nat) -> Seq<u8> {
    dec_bytes(len) + Seq::new((10 - dec_bytes(len).len()) as nat, |i: int| 0x20u8)
}

/// The archive's global magic followed by the 60-byte member header.
pub open spec fn archive_header(len: nat) -> Seq<u8> {
    ar_global_magic() + ar_member_name() + ar_timestamp() + ar_zero_id() + ar_zero_id() + ar_mode()
        + ar_size_field(len) + ar_end_magic()
}

/// A member of odd length is followed by one `\n` pad byte; members are
/// 2-byte aligned.
pub open spec fn archive_footer(len: nat) -> Seq<u8> {
    if len % 2 == 1 {
        seq![0x0au8]
    } else {
        Seq::empty()
    }
}

/// The whole archive around one member, or the size-field overflow that
/// prevents it.
pub open spec fn archive_member(payload: Seq<u8>) -> Result<Seq<u8>, ArchiveError> {
    if dec_bytes(payload.len()).len() > 10 {
        Err(ArchiveError::ArchiveTooLarge)
    } else {
        Ok(archive_header(payload.len()) + payload + archive_footer(payload.len()))
    }
}

/// Archive framing: odd payloads get exactly one pad byte, even payloads
/// none, and the size field is the payload's exact length in decimal ASCII
/// followed only by spaces, 10 bytes in all, standing at `[56, 66)` of the
/// header.
pub proof fn lemma_archive_framing(payload: Seq<u8>)
    requires
        dec_bytes(payload.len()).len() <= 10,
    ensures
        archive_member(payload) is Ok,
        payload.len() % 2 == 1 ==> archive_member(payload)->Ok_0 == archive_header(payload.len())
            + payload + seq![0x0au8],
        payload.len() % 2 == 0 ==> archive_member(payload)->Ok_0 == archive_header(payload.len())
            + payload,
        archive_header(payload.len()).len() == 68,
        archive_header(payload.len()).subrange(56, 66) == ar_size_field(payload.len()),
        ar_size_field(payload.len()).len() == 10,
{
    let len = payload.len();
    if len % 2 == 0 {
        assert(archive_header(len) + payload + archive_footer(len) =~= archive_header(len)
            + payload);
    }
    assert(archive_header(len).subrange(56, 66) =~= ar_size_field(len));
}

/// Write the archive global magic and the member header for a member of
/// `singleton_file_contents`. Nothing is written when the member's size
/// needs more than 10 decimal digits.
#[verifier::rlimit(100)]
#[verifier::spinoff_prover]
pub fn write_archive_header(w: &mut Vec<u8>, singleton_file_contents: &[u8]) -> (r: Result<
    (),
    ArchiveError,
>)
    ensures
        match r {
            Ok(_) => dec_bytes(singleton_file_contents@.len()).len() <= 10 && final(w)@ == old(w)@
                + archive_header(singleton_file_contents@.len()),
            Err(e) => dec_bytes(singleton_file_contents@.len()).len() > 10 && e
                == ArchiveError::ArchiveTooLarge && final(w)@ == old(w)@,
        },
{
    let length_str = to_decimal(singleton_file_contents.len() as u64);
    if length_str.len() > 10 {
        return Err(ArchiveError::ArchiveTooLarge);
    }
    let ghost w0 = w@;
    // "!<arch>\n"
    w.push(0x21);
    w.push(0x3c);
    w.push(0x61);
    w.push(0x72);
    w.push(0x63);
    w.push(0x68);
    w.push(0x3e);
    w.push(0x0a);
    // "rasm.o/" space-padded to 16 bytes
    w.push(0x72);
    w.push(0x61);
    w.push(0x73);
    w.push(0x6d);
    w.push(0x2e);
    w.push(0x6f);
    w.push(0x2f);
    push_repeat(w, 0x20, 9);
    // "1468364067  ": the fixed modification-time field
    w.push(0x31);
    w.push(0x34);
    w.push(0x36);
    w.push(0x38);
    w.push(0x33);
    w.push(0x36);
    w.push(0x34);
    w.push(0x30);
    w.push(0x36);
    w.push(0x37);
    w.push(0x20);
    w.push(0x20);
    // "0     " twice: owner id and group id
    w.push(0x30);
    push_repeat(w, 0x20, 5);
    w.push(0x30);
    push_repeat(w, 0x20, 5);
    // "100666  ": the file mode
    w.push(0x31);
    w.push(0x30);
    w.push(0x30);
    w.push(0x36);
    w.push(0x36);
    w.push(0x36);
    w.push(0x20);
    w.push(0x20);
    // the decimal size, left justified in 10 bytes
    let pad = 10 - length_str.len();
    push_bytes(w, length_str.as_slice());
    push_repeat(w, 0x20, pad);
    // "`\n"
    w.push(0x60);
    w.push(0x0a);
    proof {
        assert(w@ =~= w0 + archive_header(singleton_file_contents@.len()));
    }
    Ok(())
}

/// Pad the member to even length with one `\n` byte.
pub fn write_archive_footer(w: &mut Vec<u8>, singleton_file_contents: &[u8])
    ensures
        final(w)@ == old(w)@ + archive_footer(singleton_file_contents@.len()),
{
    if singleton_file_contents.len() % 2 == 1 {
        w.push(0x0a);
        proof {
            assert(w@ =~= old(w)@ + archive_footer(singleton_file_contents@.len()));
        }
    } else {
        proof {
            assert(w@ =~= w@ + archive_footer(singleton_file_contents@.len()));
        }
    }
}

/// The aux record attached to the `.text` section symbol: section length 4
/// in its first field, zero elsewhere.
pub open spec fn text_aux_record() -> Seq<u8> {
    seq![4u8] + Seq::new(17, |i: int| 0u8)
}

/// The COFF image of a resolved object: one `.text` section holding the
/// code, a `.text` section symbol, and one external function symbol per
/// exported function.
pub open spec fn object_coff(of: ObjectFileV) -> CoffV {
    CoffV {
        machine: coff::MACHINE_AMD64,
        timestamp: 0,
        sections: seq![
            SectionV {
                name: ".text"@,
                data: of.code,
                characteristics: 0x60500020,
                relocations: Seq::empty(),
            },
        ],
        symbols: seq![
            SymbolV {
                name: ".text"@,
                value: 0,
                section_number: 1,
                type_flags: 0,
                storage_class: 3,
                aux_symbols: seq![text_aux_record()],
            },
        ] + of.functions.map_values(
            |f: ExportedFunctionV|
                SymbolV {
                    name: f.name,
                    value: f.offset,
                    section_number: 1,
                    type_flags: 0x20,
                    storage_class: 0x02,
                    aux_symbols: seq![Seq::new(18, |i: int| 0u8)],
                },
        ),
        optional_header: Seq::empty(),
        characteristics: 0x0004,
    }
}

/// The ELF image of a resolved object: x86-64, 64-bit, little-endian, with
/// a fixed source-file name.
pub open spec fn object_elf(of: ObjectFileV) -> ElfV {
    ElfV {
        word_size: elf::WordSize::Bits64,
        endianness: elf::Endianness::LittleEndian,
        architecture: elf::Architecture::X8664,
        file_name: "fooasm.asm"@,
        functions: of.functions.map_values(
            |f: ExportedFunctionV| FunctionV { offset: f.offset as usize, name: f.name },
        ),
        text_content: of.code,
    }
}

proof fn lemma_text_name()
    ensures
        name_bytes(".text"@) == seq![0x2eu8, 0x74u8, 0x65u8, 0x78u8, 0x74u8],
{
    reveal_strlit(".text");
    reveal_with_fuel(vstd::utf8::encode_utf8, 7);
    assert(forall|v: u32| v < 0x80 ==> #[trigger] (v & 0x7F) == v) by (bit_vector);
    assert(name_bytes(".text"@) =~= seq![0x2eu8, 0x74u8, 0x65u8, 0x78u8, 0x74u8]);
}

/// `.text` is the only section, and its five-byte name sits inline, so the
/// string-table redirection rule is never exercised.
proof fn lemma_object_coff_names_fit(of: ObjectFileV)
    ensures
        section_names_fit(object_coff(of).sections, 4),
{
    lemma_text_name();
    assert(object_coff(of).sections.skip(1) =~= Seq::<SectionV>::empty());
    assert(object_coff(of).sections[0].name == ".text"@);
    assert(section_names_fit(
        object_coff(of).sections.skip(1),
        crate::coff::st_step(name_bytes(".text"@), 4),
    ));
}

proof fn lemma_coff_symbol_view_push(b: Seq<Symbol>, s: Symbol)
    ensures
        b.push(s).map_values(|x: Symbol| x@) == b.map_values(|x: Symbol| x@).push(s@),
{
    assert(b.push(s).map_values(|x: Symbol| x@) =~= b.map_values(|x: Symbol| x@).push(s@));
}

proof fn lemma_elf_function_view_push(b: Seq<elf::Function>, s: elf::Function)
    ensures
        b.push(s).map_values(|x: elf::Function| x@) == b.map_values(|x: elf::Function| x@).push(
            s@,
        ),
{
    assert(b.push(s).map_values(|x: elf::Function| x@) =~= b.map_values(|x: elf::Function| x@).push(
        s@,
    ));
}

impl ObjectFile {
    /// The COFF serialization of this object: the code as one `.text`
    /// section, with a symbol per exported function. The code must fit the
    /// section's 32-bit size field.
    pub fn make_object_file(&self) -> (r: Vec<u8>)
        requires
            self.code@.len() <= 0xFFFF_FFFF,
        ensures
            coff_bytes(object_coff(self@)) is Ok,
            r@ == coff_bytes(object_coff(self@))->Ok_0,
    {
        let ghost target = object_coff(self@);
        let mut sections: Vec<Section> = Vec::new();
        sections.push(
            Section {
                name: ".text".to_owned(),
                characteristics: 0x60500020,
                data: vstd::slice::slice_to_vec(self.code.as_slice()),
                relocations: Vec::new(),
            },
        );
        let mut symbols: Vec<Symbol> = Vec::new();
        let mut text_aux: Vec<[u8; 18]> = Vec::new();
        text_aux.push([0x04, 0, 0, 0, 0, 0, 0, 0, 0, 0, 0, 0, 0, 0, 0, 0, 0, 0]);
        proof {
            assert(text_aux@[0]@ =~= text_aux_record());
            assert(text_aux@.map_values(|a: [u8; 18]| a@) =~= seq![text_aux_record()]);
        }
        symbols.push(
            Symbol {
                name: ".text".to_owned(),
                value: 0,
                section_number: 1,
                type_flags: 0,
                storage_class: 3,
                aux_symbols: text_aux,
            },
        );
        proof {
            assert(symbols@.map_values(|x: Symbol| x@) =~= target.symbols.take(1int));
        }
        let mut i: usize = 0;
        while i < self.functions.len()
            invariant
                i <= self.functions@.len(),
                target == object_coff(self@),
                target.symbols.len() == 1 + self.functions@.len(),
                self@.functions.len() == self.functions@.len(),
                symbols@.map_values(|x: Symbol| x@) == target.symbols.take(1 + i),
            decreases self.functions@.len() - i,
        {
            let f = &self.functions[i];
            let mut aux: Vec<[u8; 18]> = Vec::new();
            aux.push([0, 0, 0, 0, 0, 0, 0, 0, 0, 0, 0, 0, 0, 0, 0, 0, 0, 0]);
            proof {
                assert(self@.functions[i as int] == self.functions@[i as int]@);
                assert(aux@[0]@ =~= Seq::new(18, |k: int| 0u8));
                assert(aux@.map_values(|a: [u8; 18]| a@) =~= seq![Seq::new(18, |k: int| 0u8)]);
                assert(target.symbols[1 + i] == SymbolV {
                    name: self@.functions[i as int].name,
                    value: self@.functions[i as int].offset,
                    section_number: 1,
                    type_flags: 0x20,
                    storage_class: 0x02,
                    aux_symbols: seq![Seq::new(18, |k: int| 0u8)],
                });
            }
            let ghost pre = symbols@;
            symbols.push(
                Symbol {
                    name: f.name.clone(),
                    value: f.offset,
                    section_number: 1,
                    type_flags: 0x20,
                    storage_class: 0x02,
                    aux_symbols: aux,
                },
            );
            i = i + 1;
            proof {
                assert(symbols@ == pre.push(symbols@.last()));
                lemma_coff_symbol_view_push(pre, symbols@.last());
                assert(symbols@.last()@ =~= target.symbols[1 + i - 1]);
                assert(target.symbols.take(1 + i) =~= target.symbols.take(1 + i - 1).push(
                    target.symbols[1 + i - 1],
                ));
                assert(symbols@.map_values(|x: Symbol| x@) == target.symbols.take(1 + i));
            }
        }
        let c = Coff {
            machine: MACHINE_AMD64,
            timestamp: 0,
            optional_header: Vec::new(),
            characteristics: 0x0004,
            sections: sections,
            symbols: symbols,
        };
        proof {
            assert(target.symbols.take(1 + i) =~= target.symbols);
            assert(c@.sections =~= target.sections);
            assert(c@ =~= target);
            lemma_object_coff_names_fit(self@);
            assert(forall|k: int|
                0 <= k < target.sections.len() ==> (#[trigger] target.sections[k].data.len())
                    <= 0xFFFF_FFFF);
        }
        let mut result: Vec<u8> = Vec::new();
        match c.write(&mut result) {
            Ok(_) => result,
            Err(_) => {
                proof {
                    assert(false);
                }
                result
            },
        }
    }

    /// The ELF serialization of this object: x86-64, 64-bit, little-endian.
    pub fn make_elf_file(&self) -> (r: Vec<u8>)
        ensures
            r@ == elf_bytes(object_elf(self@)),
    {
        let ghost target = object_elf(self@);
        let mut functions: Vec<elf::Function> = Vec::new();
        let mut i: usize = 0;
        proof {
            assert(functions@.map_values(|x: elf::Function| x@) =~= target.functions.take(0int));
        }
        while i < self.functions.len()
            invariant
                i <= self.functions@.len(),
                target == object_elf(self@),
                target.functions.len() == self.functions@.len(),
                self@.functions.len() == self.functions@.len(),
                functions@.map_values(|x: elf::Function| x@) == target.functions.take(i as int),
            decreases self.functions@.len() - i,
        {
            let f = &self.functions[i];
            proof {
                assert(self@.functions[i as int] == self.functions@[i as int]@);
                assert(target.functions[i as int] == FunctionV {
                    offset: self@.functions[i as int].offset as usize,
                    name: self@.functions[i as int].name,
                });
            }
            let ghost pre = functions@;
            functions.push(elf::Function { name: f.name.clone(), offset: f.offset as usize });
            i = i + 1;
            proof {
                assert(functions@ == pre.push(functions@.last()));
                lemma_elf_function_view_push(pre, functions@.last());
                assert(functions@.last()@ =~= target.functions[i - 1]);
                assert(target.functions.take(i as int) =~= target.functions.take(i - 1).push(
                    target.functions[i - 1],
                ));
                assert(functions@.map_values(|x: elf::Function| x@) == target.functions.take(
                    i as int,
                ));
            }
        }
        let e = Elf {
            architecture: elf::Architecture::X8664,
            word_size: elf::WordSize::Bits64,
            endianness: elf::Endianness::LittleEndian,
            file_name: "fooasm.asm".to_owned(),
            functions: functions,
            text_content: vstd::slice::slice_to_vec(self.code.as_slice()),
        };
        proof {
            assert(target.functions.take(i as int) =~= target.functions);
            assert(e@ =~= target);
        }
        let mut result: Vec<u8> = Vec::new();
        e.write(&mut result);
        result
    }

    /// Serialize this object as a COFF member of a Unix archive. Nothing is
    /// written when the member's size field overflows.
    pub fn write(&self, out: &mut Vec<u8>) -> (r: Result<(), ArchiveError>)
        requires
            self.code@.len() <= 0xFFFF_FFFF,
        ensures
            coff_bytes(object_coff(self@)) is Ok,
            match r {
                Ok(_) => archive_member(coff_bytes(object_coff(self@))->Ok_0) is Ok
                    && final(out)@ == old(out)@ + archive_member(
                    coff_bytes(object_coff(self@))->Ok_0,
                )->Ok_0,
                Err(e) => archive_member(coff_bytes(object_coff(self@))->Ok_0) == Err::<
                    Seq<u8>,
                    ArchiveError,
                >(e) && final(out)@ == old(out)@,
            },
    {
        let template_bytes = self.make_object_file();
        match write_archive_header(out, template_bytes.as_slice()) {
            Err(e) => {
                return Err(e);
            },
            Ok(_) => {},
        }
        push_bytes(out, template_bytes.as_slice());
        write_archive_footer(out, template_bytes.as_slice());
        proof {
            assert(out@ =~= old(out)@ + archive_member(coff_bytes(object_coff(self@))->Ok_0)->Ok_0);
        }
        Ok(())
    }
}

} // verus!
