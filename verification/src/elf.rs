//! ELF relocatable-object writer. The output always holds exactly five
//! sections — null, `.text`, `.shstrtab`, `.symtab`, `.strtab` — and a
//! symbol table of three fixed entries (null, FILE, SECTION) followed by one
//! GLOBAL/FUNC symbol per exported function. Multi-byte fields are written
//! little-endian; word-sized fields are 4 or 8 bytes per the configured word
//! size.

use crate::coff::name_bytes;
use crate::coff::zero_bytes;
use crate::emit::le_bytes;
use crate::emit::push_bytes;
use crate::emit::push_le;
use crate::emit::push_repeat;
use vstd::prelude::*;
use vstd::string::StringSliceAdditionalSpecFns;

verus! {

#[derive(Debug, Copy, Clone)]
pub enum WordSize {
    Bits32,
    Bits64,
}

impl WordSize {
    pub open spec fn spec_u8(self) -> u8 {
        match self {
            WordSize::Bits32 => 1,
            WordSize::Bits64 => 2,
        }
    }

    /// The EI_CLASS identification byte.
    pub fn as_u8(self) -> (r: u8)
        ensures
            r == self.spec_u8(),
    {
        match self {
            WordSize::Bits32 => 1,
            WordSize::Bits64 => 2,
        }
    }

    /// How many bytes a word-sized field takes.
    pub open spec fn spec_word_len(self) -> nat {
        match self {
            WordSize::Bits32 => 4,
            WordSize::Bits64 => 8,
        }
    }

    /// The section-header offset, ELF-header size and section-header entry
    /// size all depend only on the word size.
    pub open spec fn spec_header_len(self) -> int {
        match self {
            WordSize::Bits32 => 0x34,
            WordSize::Bits64 => 0x40,
        }
    }

    pub open spec fn spec_shentsize(self) -> int {
        match self {
            WordSize::Bits32 => 0x28,
            WordSize::Bits64 => 0x40,
        }
    }
}

#[derive(Debug, Copy, Clone)]
pub enum Endianness {
    LittleEndian,
    BigEndian,
}

impl Endianness {
    pub open spec fn spec_u8(self) -> u8 {
        match self {
            Endianness::LittleEndian => 1,
            Endianness::BigEndian => 2,
        }
    }

    /// The EI_DATA identification byte.
    pub fn as_u8(self) -> (r: u8)
        ensures
            r == self.spec_u8(),
    {
        match self {
            Endianness::LittleEndian => 1,
            Endianness::BigEndian => 2,
        }
    }
}

#[derive(Debug, Copy, Clone)]
pub enum Architecture {
    X86,
    Arm,
    X8664,
    Avr,
}

impl Architecture {
    pub open spec fn spec_u8(self) -> u8 {
        match self {
            Architecture::X86 => 0x03,
            Architecture::Arm => 0x27,
            Architecture::X8664 => 0x3E,
            Architecture::Avr => 0x53,
        }
    }

    /// The e_machine identifier.
    pub fn as_u8(self) -> (r: u8)
        ensures
            r == self.spec_u8(),
    {
        match self {
            Architecture::X86 => 0x03,
            Architecture::Arm => 0x27,
            Architecture::X8664 => 0x3E,
            Architecture::Avr => 0x53,
        }
    }
}

/// An exported function: offset into the text section, and symbol name.
pub struct Function {
    pub offset: usize,
    pub name: String,
}

#[verifier::ext_equal]
pub struct FunctionV {
    pub offset: usize,
    pub name: Seq<char>,
}

impl View for Function {
    type V = FunctionV;

    open spec fn view(&self) -> FunctionV {
        FunctionV { offset: self.offset, name: self.name@ }
    }
}

pub struct Elf {
    pub word_size: WordSize,
    pub endianness: Endianness,
    pub architecture: Architecture,
    pub file_name: String,
    pub functions: Vec<Function>,
    pub text_content: Vec<u8>,
}

#[verifier::ext_equal]
pub struct ElfV {
    pub word_size: WordSize,
    pub endianness: Endianness,
    pub architecture: Architecture,
    pub file_name: Seq<char>,
    pub functions: Seq<FunctionV>,
    pub text_content: Seq<u8>,
}

impl View for Elf {
    type V = ElfV;

    open spec fn view(&self) -> ElfV {
        ElfV {
            word_size: self.word_size,
            endianness: self.endianness,
            architecture: self.architecture,
            file_name: self.file_name@,
            functions: self.functions@.map_values(|f: Function| f@),
            text_content: self.text_content@,
        }
    }
}

/// A growable NUL-terminated string table. The first byte is reserved as
/// NUL; `append` returns the byte offset of the appended string, and the
/// empty string maps to offset 0.
pub struct StringTable {
    pub inner: Vec<u8>,
}

/// One `append`: an empty name leaves the table unchanged at offset 0; any
/// other name lands NUL-terminated at the table's previous end.
pub open spec fn st_app(tab: Seq<u8>, name: Seq<char>) -> (Seq<u8>, int) {
    if name_bytes(name).len() == 0 {
        (tab, 0)
    } else {
        (tab + name_bytes(name) + seq![0u8], tab.len() as int)
    }
}

impl StringTable {
    pub fn new() -> (r: StringTable)
        ensures
            r.inner@ == seq![0u8],
    {
        let mut v: Vec<u8> = Vec::new();
        v.push(0);
        proof {
            assert(v@ =~= seq![0u8]);
        }
        StringTable { inner: v }
    }

    pub fn append(&mut self, s: &str) -> (r: u64)
        ensures
            final(self).inner@ == st_app(old(self).inner@, s@).0,
            r as int == st_app(old(self).inner@, s@).1,
    {
        let nb = s.as_bytes();
        proof {
            assert(nb@ == name_bytes(s@));
        }
        if nb.len() == 0 {
            return 0;
        }
        let ret = self.inner.len() as u64;
        push_bytes(&mut self.inner, nb);
        self.inner.push(0);
        proof {
            assert(self.inner@ =~= old(self).inner@ + name_bytes(s@) + seq![0u8]);
        }
        ret
    }
}

/// One symbol-table row before serialization.
pub struct ElfSymbol {
    pub name: String,
    pub offset: u64,
    pub size: u64,
    pub info: u8,
    pub other: u8,
    pub shndx: u16,
}

#[verifier::ext_equal]
pub struct ElfSymbolV {
    pub name: Seq<char>,
    pub offset: u64,
    pub size: u64,
    pub info: u8,
    pub other: u8,
    pub shndx: u16,
}

impl View for ElfSymbol {
    type V = ElfSymbolV;

    open spec fn view(&self) -> ElfSymbolV {
        ElfSymbolV {
            name: self.name@,
            offset: self.offset,
            size: self.size,
            info: self.info,
            other: self.other,
            shndx: self.shndx,
        }
    }
}

/// The symbol rows: a blank entry, a FILE entry naming the source, a
/// SECTION entry for `.text`, then one GLOBAL/FUNC entry per function.
pub open spec fn elf_symbols(e: ElfV) -> Seq<ElfSymbolV> {
    seq![
        ElfSymbolV { name: Seq::empty(), offset: 0, size: 0, info: 0, other: 0, shndx: 0 },
        ElfSymbolV { name: e.file_name, offset: 0, size: 0, info: 4, other: 0, shndx: 0xfff1 },
        ElfSymbolV { name: Seq::empty(), offset: 0, size: 0, info: 3, other: 0, shndx: 1 },
    ] + e.functions.map_values(
        |f: FunctionV|
            ElfSymbolV {
                name: f.name,
                offset: f.offset as u64,
                size: 0,
                info: 0x10,
                other: 0,
                shndx: 1,
            },
    )
}

/// One serialized symbol entry, given its name's string-table offset.
pub open spec fn sym_entry_bytes(s: ElfSymbolV, name_off: int, ws: WordSize) -> Seq<u8> {
    match ws {
        WordSize::Bits32 => le_bytes(name_off, 4) + le_bytes(s.offset as int, 4) + le_bytes(
            s.size as int,
            4,
        ) + seq![s.info, s.other] + le_bytes(s.shndx as int, 2),
        WordSize::Bits64 => le_bytes(name_off, 4) + seq![s.info, s.other] + le_bytes(
            s.shndx as int,
            2,
        ) + le_bytes(s.offset as int, 8) + le_bytes(s.size as int, 8),
    }
}

/// Serialize the symbol rows while growing the string table: returns the
/// `.symtab` contents and the final `.strtab` contents.
pub open spec fn symtab_fold(syms: Seq<ElfSymbolV>, tab: Seq<u8>, ws: WordSize) -> (Seq<u8>, Seq<
    u8,
>)
    decreases syms.len(),
{
    if syms.len() == 0 {
        (Seq::empty(), tab)
    } else {
        let app = st_app(tab, syms[0].name);
        let rest = symtab_fold(syms.skip(1), app.0, ws);
        (sym_entry_bytes(syms[0], app.1, ws) + rest.0, rest.1)
    }
}

pub open spec fn elf_symtab(e: ElfV) -> Seq<u8> {
    symtab_fold(elf_symbols(e), seq![0u8], e.word_size).0
}

pub open spec fn elf_strtab(e: ElfV) -> Seq<u8> {
    symtab_fold(elf_symbols(e), seq![0u8], e.word_size).1
}

/// The `.shstrtab` contents: the five section names, and each name's offset.
pub open spec fn elf_shstrtab(e: ElfV) -> (Seq<u8>, Seq<int>) {
    let a0 = st_app(seq![0u8], ""@);
    let a1 = st_app(a0.0, ".text"@);
    let a2 = st_app(a1.0, ".shstrtab"@);
    let a3 = st_app(a2.0, ".symtab"@);
    let a4 = st_app(a3.0, ".strtab"@);
    (a4.0, seq![a0.1, a1.1, a2.1, a3.1, a4.1])
}

/// The five section bodies, in section order.
pub open spec fn elf_contents(e: ElfV) -> Seq<Seq<u8>> {
    seq![
        Seq::<u8>::empty(),
        e.text_content,
        elf_shstrtab(e).0,
        elf_symtab(e),
        elf_strtab(e),
    ]
}

/// Per-section constants: type, flags, address, link, info, align, entsize.
pub open spec fn elf_sh_meta(i: int) -> (u32, u32, u64, u32, u32, u64, u64) {
    if i == 1 {
        (1, 6, 0, 0, 0, 16, 0)  // .text
    } else if i == 2 {
        (3, 0, 0, 0, 0, 1, 0)  // .shstrtab
    } else if i == 3 {
        (2, 0, 0, 4, 3, 4, 0x18)  // .symtab
    } else if i == 4 {
        (3, 0, 0, 0, 0, 1, 0)  // .strtab
    } else {
        (0, 0, 0, 0, 0, 0, 0)  // null section
    }
}

/// A word-sized field: 4 or 8 little-endian bytes.
pub open spec fn word_bytes(ws: WordSize, v: int) -> Seq<u8> {
    le_bytes(v, ws.spec_word_len())
}

/// `x` rounded up to the next multiple of 16.
pub open spec fn round16(x: int) -> int {
    ((x + 15) / 16) * 16
}

/// The body-offset accumulator before section `i`: bodies start at the
/// fixed base `0x180`; a non-empty body starts at the next 16-byte boundary.
pub open spec fn elf_body_acc(e: ElfV, i: int) -> int
    decreases i,
{
    if i <= 0 {
        0x180
    } else {
        let prev = elf_body_acc(e, i - 1);
        let len = elf_contents(e)[i - 1].len() as int;
        (if len != 0 {
            round16(prev)
        } else {
            prev
        }) + len
    }
}

/// The file offset recorded in section `i`'s header: 0 for an empty body.
pub open spec fn elf_body_off(e: ElfV, i: int) -> int {
    if elf_contents(e)[i].len() == 0 {
        0
    } else {
        round16(elf_body_acc(e, i))
    }
}

/// One serialized section-header entry.
pub open spec fn sh_entry_bytes(e: ElfV, i: int) -> Seq<u8> {
    let ws = e.word_size;
    let meta = elf_sh_meta(i);
    let content_len = elf_contents(e)[i].len() as int;
    le_bytes(elf_shstrtab(e).1[i], 4) + le_bytes(meta.0 as int, 4) + word_bytes(ws, meta.1 as int)
        + word_bytes(ws, meta.2 as int) + word_bytes(ws, elf_body_off(e, i)) + word_bytes(
        ws,
        content_len,
    ) + le_bytes(meta.3 as int, 4) + le_bytes(meta.4 as int, 4) + word_bytes(ws, meta.5 as int)
        + word_bytes(ws, meta.6 as int)
}

/// The ELF header.
pub open spec fn elf_header_bytes(e: ElfV) -> Seq<u8> {
    let ws = e.word_size;
    seq![0x7fu8, 0x45u8, 0x4cu8, 0x46u8]  // magic
     + seq![ws.spec_u8(), e.endianness.spec_u8(), 1u8, 0u8] + zero_bytes(8) + le_bytes(1, 2)  // relocatable object
     + le_bytes(e.architecture.spec_u8() as int, 2) + le_bytes(1, 4)  // ELF version
     + word_bytes(ws, 0)  // entry point
     + word_bytes(ws, 0)  // program-header offset
     + word_bytes(ws, ws.spec_header_len())  // section-header offset
     + le_bytes(0, 4)  // flags
     + le_bytes(ws.spec_header_len(), 2) + le_bytes(0, 2)  // program-header entry size
     + le_bytes(0, 2)  // program-header entry count
     + le_bytes(ws.spec_shentsize(), 2) + le_bytes(5, 2)  // section-header entry count
     + le_bytes(2, 2)  // shstrndx
}

/// A body followed by its zero padding to the next 16-byte boundary.
pub open spec fn body_padded(content: Seq<u8>) -> Seq<u8> {
    content + zero_bytes((((16 - content.len() as int % 16) % 16)) as nat)
}

/// The whole serialized ELF object.
pub open spec fn elf_bytes(e: ElfV) -> Seq<u8> {
    elf_header_bytes(e) + sh_entry_bytes(e, 0) + sh_entry_bytes(e, 1) + sh_entry_bytes(e, 2)
        + sh_entry_bytes(e, 3) + sh_entry_bytes(e, 4) + body_padded(elf_contents(e)[0])
        + body_padded(elf_contents(e)[1]) + body_padded(elf_contents(e)[2]) + body_padded(
        elf_contents(e)[3],
    ) + body_padded(elf_contents(e)[4])
}

/// Zero padding up to the next 16-byte boundary.
fn pad16_len(len: usize) -> (r: usize)
    ensures
        r as int == (16 - len as int % 16) % 16,
        r < 16,
{
    (16 - len % 16) % 16
}

proof fn lemma_sym_view_push(b: Seq<ElfSymbol>, s: ElfSymbol)
    ensures
        b.push(s).map_values(|x: ElfSymbol| x@) == b.map_values(|x: ElfSymbol| x@).push(s@),
{
    assert(b.push(s).map_values(|x: ElfSymbol| x@) =~= b.map_values(|x: ElfSymbol| x@).push(s@));
}

/// The symbol rows as executable values.
fn build_symbols(e: &Elf) -> (r: Vec<ElfSymbol>)
    ensures
        r@.map_values(|s: ElfSymbol| s@) == elf_symbols(e@),
{
    let mut symbols: Vec<ElfSymbol> = Vec::new();
    symbols.push(
        ElfSymbol { name: String::new(), offset: 0, size: 0, info: 0, other: 0, shndx: 0 },
    );
    symbols.push(
        ElfSymbol {
            name: e.file_name.clone(),
            offset: 0,
            size: 0,
            info: 4,
            other: 0,
            shndx: 0xfff1,
        },
    );
    symbols.push(
        ElfSymbol { name: String::new(), offset: 0, size: 0, info: 3, other: 0, shndx: 1 },
    );
    let mut fi: usize = 0;
    proof {
        assert(symbols@.map_values(|s: ElfSymbol| s@) =~= elf_symbols(e@).take(3 + fi));
    }
    while fi < e.functions.len()
        invariant
            fi <= e.functions@.len(),
            elf_symbols(e@).len() == 3 + e.functions@.len(),
            e@.functions.len() == e.functions@.len(),
            symbols@.map_values(|s: ElfSymbol| s@) == elf_symbols(e@).take(3 + fi),
        decreases e.functions@.len() - fi,
    {
        let f = &e.functions[fi];
        proof {
            assert(e@.functions[fi as int] == e.functions@[fi as int]@);
            assert(elf_symbols(e@)[3 + fi] == ElfSymbolV {
                name: e@.functions[fi as int].name,
                offset: e@.functions[fi as int].offset as u64,
                size: 0,
                info: 0x10,
                other: 0,
                shndx: 1,
            });
        }
        let ghost pre = symbols@;
        symbols.push(
            ElfSymbol {
                name: f.name.clone(),
                offset: f.offset as u64,
                size: 0,
                info: 0x10,
                other: 0,
                shndx: 1,
            },
        );
        fi = fi + 1;
        proof {
            assert(symbols@ == pre.push(symbols@.last()));
            lemma_sym_view_push(pre, symbols@.last());
            assert(symbols@.last()@ == elf_symbols(e@)[3 + fi - 1]);
            assert(elf_symbols(e@).take(3 + fi) =~= elf_symbols(e@).take(3 + fi - 1).push(
                elf_symbols(e@)[3 + fi - 1],
            ));
            assert(symbols@.map_values(|s: ElfSymbol| s@) == elf_symbols(e@).take(3 + fi));
        }
    }
    proof {
        assert(elf_symbols(e@).take(3 + fi) =~= elf_symbols(e@));
    }
    symbols
}

/// Serialize the symbol rows, growing the symbol string table as each name
/// is appended.
#[verifier::rlimit(100)]
fn build_symtab(symbols: &Vec<ElfSymbol>, ws: WordSize) -> (r: (Vec<u8>, StringTable))
    ensures
        r.0@ == symtab_fold(symbols@.map_values(|s: ElfSymbol| s@), seq![0u8], ws).0,
        r.1.inner@ == symtab_fold(symbols@.map_values(|s: ElfSymbol| s@), seq![0u8], ws).1,
{
    let ghost symsv = symbols@.map_values(|s: ElfSymbol| s@);
    let mut symbol_string_table = StringTable::new();
    let mut symtab: Vec<u8> = Vec::new();
    let mut si: usize = 0;
    proof {
        assert(symsv.skip(0) =~= symsv);
    }
    while si < symbols.len()
        invariant
            si <= symbols@.len(),
            symsv == symbols@.map_values(|s: ElfSymbol| s@),
            symsv.len() == symbols@.len(),
            symtab_fold(symsv, seq![0u8], ws).0 == symtab@ + symtab_fold(
                symsv.skip(si as int),
                symbol_string_table.inner@,
                ws,
            ).0,
            symtab_fold(symsv, seq![0u8], ws).1 == symtab_fold(
                symsv.skip(si as int),
                symbol_string_table.inner@,
                ws,
            ).1,
        decreases symbols@.len() - si,
    {
        proof {
            assert(symsv.skip(si as int)[0] == symsv[si as int]);
            assert(symsv.skip(si as int).skip(1) =~= symsv.skip(si as int + 1));
            assert(symsv[si as int] == symbols@[si as int]@);
        }
        let ghost pre_tab = symbol_string_table.inner@;
        let ghost pre_sym = symtab@;
        let s = &symbols[si];
        let name_offset = symbol_string_table.append(s.name.as_str());
        match ws {
            WordSize::Bits32 => {
                push_le(&mut symtab, name_offset as u128, 4);
                push_le(&mut symtab, s.offset as u128, 4);
                push_le(&mut symtab, s.size as u128, 4);
                symtab.push(s.info);
                symtab.push(s.other);
                push_le(&mut symtab, s.shndx as u128, 2);
            },
            WordSize::Bits64 => {
                push_le(&mut symtab, name_offset as u128, 4);
                symtab.push(s.info);
                symtab.push(s.other);
                push_le(&mut symtab, s.shndx as u128, 2);
                push_le(&mut symtab, s.offset as u128, 8);
                push_le(&mut symtab, s.size as u128, 8);
            },
        }
        si = si + 1;
        proof {
            assert(symtab@ =~= pre_sym + sym_entry_bytes(
                symsv[si - 1],
                st_app(pre_tab, symsv[si - 1].name).1,
                ws,
            ));
            assert(symtab_fold(symsv, seq![0u8], ws).0 =~= symtab@ + symtab_fold(
                symsv.skip(si as int),
                symbol_string_table.inner@,
                ws,
            ).0);
        }
    }
    proof {
        assert(symsv.skip(si as int) =~= Seq::<ElfSymbolV>::empty());
    }
    (symtab, symbol_string_table)
}

impl Elf {
    /// One word-sized field: 4 or 8 little-endian bytes of `value`,
    /// truncating like a store through the field's width.
    fn write_word(&self, w: &mut Vec<u8>, value: u128)
        ensures
            final(w)@ == old(w)@ + word_bytes(self.word_size, value as int),
    {
        match self.word_size {
            WordSize::Bits64 => push_le(w, value, 8),
            WordSize::Bits32 => push_le(w, value, 4),
        }
    }

    /// The ELF header.
    #[verifier::rlimit(100)]
    #[verifier::spinoff_prover]
    fn emit_header(&self, w: &mut Vec<u8>)
        ensures
            final(w)@ == old(w)@ + elf_header_bytes(self@),
    {
        let ghost e = self@;
        w.push(0x7f);
        w.push(0x45);
        w.push(0x4c);
        w.push(0x46);
        w.push(self.word_size.as_u8());
        w.push(self.endianness.as_u8());
        w.push(1);
        w.push(0);
        push_repeat(w, 0, 8);
        push_le(w, 1, 2);
        push_le(w, self.architecture.as_u8() as u128, 2);
        push_le(w, 1, 4);
        self.write_word(w, 0);
        self.write_word(w, 0);
        let header_len: u64 = match self.word_size {
            WordSize::Bits32 => 0x34,
            WordSize::Bits64 => 0x40,
        };
        self.write_word(w, header_len as u128);
        push_le(w, 0, 4);
        push_le(w, header_len as u128, 2);
        push_le(w, 0, 2);
        push_le(w, 0, 2);
        let shentsize: u64 = match self.word_size {
            WordSize::Bits32 => 0x28,
            WordSize::Bits64 => 0x40,
        };
        push_le(w, shentsize as u128, 2);
        push_le(w, 5, 2);
        push_le(w, 2, 2);
        proof {
            assert(w@ =~= old(w)@ + elf_header_bytes(e));
        }
    }

    /// One section-header entry: name offset, type, then the word-sized
    /// flags/address/offset/size fields, link, info, alignment and entry
    /// size.
    fn emit_sh_entry(
        &self,
        w: &mut Vec<u8>,
        name_off: u64,
        stype: u32,
        flags: u32,
        off: u128,
        size: u128,
        link: u32,
        info: u32,
        align: u64,
        entsize: u64,
        Ghost(i): Ghost<int>,
    )
        requires
            name_off as int == elf_shstrtab(self@).1[i],
            elf_sh_meta(i).0 == stype,
            elf_sh_meta(i).1 == flags,
            elf_sh_meta(i).2 == 0,
            elf_sh_meta(i).3 == link,
            elf_sh_meta(i).4 == info,
            elf_sh_meta(i).5 == align,
            elf_sh_meta(i).6 == entsize,
            off as int == elf_body_off(self@, i),
            size as int == elf_contents(self@)[i].len(),
        ensures
            final(w)@ == old(w)@ + sh_entry_bytes(self@, i),
    {
        push_le(w, name_off as u128, 4);
        push_le(w, stype as u128, 4);
        self.write_word(w, flags as u128);
        self.write_word(w, 0);
        self.write_word(w, off);
        self.write_word(w, size);
        push_le(w, link as u128, 4);
        push_le(w, info as u128, 4);
        self.write_word(w, align as u128);
        self.write_word(w, entsize as u128);
        proof {
            assert(w@ =~= old(w)@ + sh_entry_bytes(self@, i));
        }
    }

    /// The five section-header entries, computing each non-empty body's
    /// 16-byte-aligned start from the fixed base.
    #[verifier::rlimit(100)]
    fn emit_sh_table(
        &self,
        w: &mut Vec<u8>,
        offs: (u64, u64, u64, u64, u64),
        text_len: usize,
        shstr_len: usize,
        symtab_len: usize,
        strtab_len: usize,
    )
        requires
            offs.0 as int == elf_shstrtab(self@).1[0],
            offs.1 as int == elf_shstrtab(self@).1[1],
            offs.2 as int == elf_shstrtab(self@).1[2],
            offs.3 as int == elf_shstrtab(self@).1[3],
            offs.4 as int == elf_shstrtab(self@).1[4],
            elf_contents(self@)[1].len() == text_len,
            elf_contents(self@)[2].len() == shstr_len,
            elf_contents(self@)[3].len() == symtab_len,
            elf_contents(self@)[4].len() == strtab_len,
        ensures
            final(w)@ == old(w)@ + sh_entry_bytes(self@, 0) + sh_entry_bytes(self@, 1)
                + sh_entry_bytes(self@, 2) + sh_entry_bytes(self@, 3) + sh_entry_bytes(self@, 4),
    {
        let ghost e = self@;
        let mut acc: u128 = 0x180;
        proof {
            assert(elf_contents(e)[0].len() == 0);
            assert(elf_body_acc(e, 0) == 0x180);
            assert(elf_body_acc(e, 1) == 0x180);
        }
        self.emit_sh_entry(w, offs.0, 0, 0, 0, 0, 0, 0, 0, 0, Ghost(0));
        // .text
        if text_len != 0 {
            acc = ((acc + 15) / 16) * 16;
        }
        let text_off: u128 = if text_len > 0 {
            acc
        } else {
            0
        };
        proof {
            assert(text_off as int == elf_body_off(e, 1));
        }
        self.emit_sh_entry(w, offs.1, 1, 6, text_off, text_len as u128, 0, 0, 16, 0, Ghost(1));
        acc = acc + text_len as u128;
        // .shstrtab
        proof {
            assert(acc as int == elf_body_acc(e, 2));
        }
        if shstr_len != 0 {
            acc = ((acc + 15) / 16) * 16;
        }
        let shstr_off: u128 = if shstr_len > 0 {
            acc
        } else {
            0
        };
        proof {
            assert(shstr_off as int == elf_body_off(e, 2));
        }
        self.emit_sh_entry(w, offs.2, 3, 0, shstr_off, shstr_len as u128, 0, 0, 1, 0, Ghost(2));
        acc = acc + shstr_len as u128;
        // .symtab
        proof {
            assert(acc as int == elf_body_acc(e, 3));
        }
        if symtab_len != 0 {
            acc = ((acc + 15) / 16) * 16;
        }
        let symtab_off: u128 = if symtab_len > 0 {
            acc
        } else {
            0
        };
        proof {
            assert(symtab_off as int == elf_body_off(e, 3));
        }
        self.emit_sh_entry(
            w,
            offs.3,
            2,
            0,
            symtab_off,
            symtab_len as u128,
            4,
            3,
            4,
            0x18,
            Ghost(3),
        );
        acc = acc + symtab_len as u128;
        // .strtab
        proof {
            assert(acc as int == elf_body_acc(e, 4));
        }
        if strtab_len != 0 {
            acc = ((acc + 15) / 16) * 16;
        }
        let strtab_off: u128 = if strtab_len > 0 {
            acc
        } else {
            0
        };
        proof {
            assert(strtab_off as int == elf_body_off(e, 4));
        }
        self.emit_sh_entry(
            w,
            offs.4,
            3,
            0,
            strtab_off,
            strtab_len as u128,
            0,
            0,
            1,
            0,
            Ghost(4),
        );
        proof {
            assert(w@ =~= old(w)@ + sh_entry_bytes(e, 0) + sh_entry_bytes(e, 1) + sh_entry_bytes(
                e,
                2,
            ) + sh_entry_bytes(e, 3) + sh_entry_bytes(e, 4));
        }
    }


    /// Serialize the object into `w`.
    #[verifier::rlimit(100)]
    #[verifier::spinoff_prover]
    pub fn write(&self, w: &mut Vec<u8>)
        ensures
            final(w)@ == old(w)@ + elf_bytes(self@),
    {
        let ghost e = self@;
        let symbols = build_symbols(self);
        let st = build_symtab(&symbols, self.word_size);
        let symtab = st.0;
        let symbol_string_table = st.1;
        proof {
            assert(symtab@ == elf_symtab(e));
            assert(symbol_string_table.inner@ == elf_strtab(e));
        }
        let sn = build_section_names(Ghost(e));
        let section_strings = sn.0;
        let (o0, o1, o2, o3, o4) = sn.1;
        let text_len: usize = self.text_content.len();
        let shstr_len: usize = section_strings.inner.len();
        let symtab_len: usize = symtab.len();
        let strtab_len: usize = symbol_string_table.inner.len();
        let ghost w0 = w@;
        self.emit_header(w);
        self.emit_sh_table(w, (o0, o1, o2, o3, o4), text_len, shstr_len, symtab_len, strtab_len);
        emit_bodies(
            w,
            &self.text_content,
            &section_strings.inner,
            &symtab,
            &symbol_string_table.inner,
            Ghost(e),
        );
        proof {
            assert(w@ =~= old(w)@ + elf_bytes(e));
        }
    }
}

/// The section-name string table: the five fixed names, in section order,
/// with each name's offset.
fn build_section_names(Ghost(e): Ghost<ElfV>) -> (r: (StringTable, (u64, u64, u64, u64, u64)))
    ensures
        r.0.inner@ == elf_shstrtab(e).0,
        r.1.0 as int == elf_shstrtab(e).1[0],
        r.1.1 as int == elf_shstrtab(e).1[1],
        r.1.2 as int == elf_shstrtab(e).1[2],
        r.1.3 as int == elf_shstrtab(e).1[3],
        r.1.4 as int == elf_shstrtab(e).1[4],
{
    let mut section_strings = StringTable::new();
    let o0 = section_strings.append("");
    let o1 = section_strings.append(".text");
    let o2 = section_strings.append(".shstrtab");
    let o3 = section_strings.append(".symtab");
    let o4 = section_strings.append(".strtab");
    (section_strings, (o0, o1, o2, o3, o4))
}

/// The five section bodies, in order, each zero-padded to the next 16-byte
/// boundary (the null section's empty body contributes nothing).
fn emit_bodies(
    w: &mut Vec<u8>,
    text: &Vec<u8>,
    shstr: &Vec<u8>,
    symtab: &Vec<u8>,
    strtab: &Vec<u8>,
    Ghost(e): Ghost<ElfV>,
)
    requires
        elf_contents(e)[1] == text@,
        elf_contents(e)[2] == shstr@,
        elf_contents(e)[3] == symtab@,
        elf_contents(e)[4] == strtab@,
    ensures
        final(w)@ == old(w)@ + body_padded(elf_contents(e)[0]) + body_padded(elf_contents(e)[1])
            + body_padded(elf_contents(e)[2]) + body_padded(elf_contents(e)[3]) + body_padded(
            elf_contents(e)[4],
        ),
{
    push_bytes(w, text.as_slice());
    push_repeat(w, 0, pad16_len(text.len()));
    push_bytes(w, shstr.as_slice());
    push_repeat(w, 0, pad16_len(shstr.len()));
    push_bytes(w, symtab.as_slice());
    push_repeat(w, 0, pad16_len(symtab.len()));
    push_bytes(w, strtab.as_slice());
    push_repeat(w, 0, pad16_len(strtab.len()));
    proof {
        assert(body_padded(elf_contents(e)[0]) =~= Seq::<u8>::empty());
        assert(w@ =~= old(w)@ + body_padded(elf_contents(e)[0]) + body_padded(elf_contents(e)[1])
            + body_padded(elf_contents(e)[2]) + body_padded(elf_contents(e)[3]) + body_padded(
            elf_contents(e)[4],
        ));
    }
}

/// The serialized object opens with the ELF magic, and the header's last
/// two 16-bit fields — the section-header count and `shstrndx` — hold 5 and
/// 2: there are always exactly five sections and the section-name table is
/// section 2.
#[verifier::rlimit(100)]
#[verifier::spinoff_prover]
pub proof fn lemma_elf_identity(e: ElfV)
    ensures
        elf_header_bytes(e).len() == e.word_size.spec_header_len(),
        elf_bytes(e).subrange(0, 4) == seq![0x7fu8, 0x45u8, 0x4cu8, 0x46u8],
        elf_bytes(e).subrange(
            e.word_size.spec_header_len() - 4,
            e.word_size.spec_header_len() - 2,
        ) == le_bytes(5, 2),
        elf_bytes(e).subrange(
            e.word_size.spec_header_len() - 2,
            e.word_size.spec_header_len(),
        ) == le_bytes(2, 2),
{
    crate::emit::lemma_le_bytes_len_auto();
    let hl = e.word_size.spec_header_len();
    assert(elf_header_bytes(e).len() == hl);
    assert(elf_bytes(e).subrange(0, 4) =~= seq![0x7fu8, 0x45u8, 0x4cu8, 0x46u8]);
    assert(elf_header_bytes(e).subrange(hl - 4, hl - 2) =~= le_bytes(5, 2));
    assert(elf_header_bytes(e).subrange(hl - 2, hl) =~= le_bytes(2, 2));
    assert(elf_bytes(e).subrange(hl - 4, hl - 2) =~= elf_header_bytes(e).subrange(hl - 4, hl - 2));
    assert(elf_bytes(e).subrange(hl - 2, hl) =~= elf_header_bytes(e).subrange(hl - 2, hl));
}

/// Every non-empty section body's recorded file offset is a multiple of 16
/// and an empty body records offset 0; the offset field of section `i`'s
/// header — the fifth field, after the 4-byte name and type fields and two
/// word-sized fields — holds exactly that offset; and every written body is
/// zero-padded to a multiple of 16.
pub proof fn lemma_elf_body_offsets_aligned(e: ElfV)
    ensures
        forall|i: int| 0 <= i < 5 ==> #[trigger] elf_body_off(e, i) % 16 == 0,
        forall|i: int|
            0 <= i < 5 && elf_contents(e)[i].len() == 0 ==> #[trigger] elf_body_off(e, i) == 0,
        forall|i: int|
            0 <= i < 5 ==> #[trigger] sh_entry_bytes(e, i).subrange(
                8 + 2 * e.word_size.spec_word_len() as int,
                8 + 3 * e.word_size.spec_word_len() as int,
            ) == word_bytes(e.word_size, elf_body_off(e, i)),
        forall|i: int|
            0 <= i < 5 ==> #[trigger] body_padded(elf_contents(e)[i]).len() % 16 == 0,
{
    crate::emit::lemma_le_bytes_len_auto();
    assert forall|i: int| 0 <= i < 5 implies #[trigger] elf_body_off(e, i) % 16 == 0 by {
        if elf_contents(e)[i].len() != 0 {
            let x = elf_body_acc(e, i);
            vstd::arithmetic::div_mod::lemma_mod_multiples_basic((x + 15) / 16, 16);
        }
    }
    assert forall|i: int| 0 <= i < 5 implies #[trigger] sh_entry_bytes(e, i).subrange(
        8 + 2 * e.word_size.spec_word_len() as int,
        8 + 3 * e.word_size.spec_word_len() as int,
    ) == word_bytes(e.word_size, elf_body_off(e, i)) by {
        assert(sh_entry_bytes(e, i).subrange(
            8 + 2 * e.word_size.spec_word_len() as int,
            8 + 3 * e.word_size.spec_word_len() as int,
        ) =~= word_bytes(e.word_size, elf_body_off(e, i)));
    }
    assert forall|i: int| 0 <= i < 5 implies #[trigger] body_padded(elf_contents(e)[i]).len() % 16
        == 0 by {
        let len = elf_contents(e)[i].len() as int;
        let r = len % 16;
        vstd::arithmetic::div_mod::lemma_mod_bound(len, 16);
        vstd::arithmetic::div_mod::lemma_fundamental_div_mod(len, 16);
        if r == 0 {
            vstd::arithmetic::div_mod::lemma_mod_self_0(16);
            assert(body_padded(elf_contents(e)[i]).len() == len);
        } else {
            vstd::arithmetic::div_mod::lemma_small_mod((16 - r) as nat, 16);
            assert(body_padded(elf_contents(e)[i]).len() == len + (16 - r));
            assert(len + (16 - r) == 16 * (len / 16) + 16);
            assert(16 * (len / 16) + 16 == 16 * (len / 16 + 1)) by (nonlinear_arith);
            vstd::arithmetic::div_mod::lemma_mod_multiples_basic(len / 16 + 1, 16);
        }
    }
}

} // verus!
