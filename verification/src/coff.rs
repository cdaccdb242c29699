//! COFF object writer: serializes sections, relocations and symbols into the
//! Common Object File Format byte layout — a 20-byte file header, 40-byte
//! section headers, raw section data, 10-byte relocations, 18-byte symbol
//! entries with their auxiliary records, and a trailing string table for
//! names longer than the 8-byte inline fields.

use crate::emit::add3_mod32;
use crate::emit::add_mod32;
use crate::emit::addmul_mod32;
use crate::emit::dec_bytes;
use crate::emit::le_bytes;
use crate::emit::push_bytes;
use crate::emit::push_le;
use crate::emit::push_le_signed;
use crate::emit::push_repeat;
use crate::emit::to_decimal;
use vstd::prelude::*;

verus! {

pub const MACHINE_I386: u16 = 0x014c;

pub const MACHINE_IA64: u16 = 0x0200;

pub const MACHINE_AMD64: u16 = 0x8664;

/// The modulus of every 32-bit file-offset field.
pub const FIELD_MOD: u64 = 0x1_0000_0000;

pub struct Section {
    pub name: String,
    pub data: Vec<u8>,
    pub characteristics: u32,
    pub relocations: Vec<Relocation>,
}

#[derive(Clone, Copy)]
pub struct Relocation {
    pub virtual_address: u32,
    pub symbol_index: u32,
    pub type_flags: u16,
}

pub struct Symbol {
    pub name: String,
    pub value: u32,
    pub section_number: i16,
    pub type_flags: u16,
    pub storage_class: u8,
    pub aux_symbols: Vec<[u8; 18]>,
}

pub struct Coff {
    pub machine: u16,
    pub timestamp: u32,
    pub sections: Vec<Section>,
    pub symbols: Vec<Symbol>,
    pub optional_header: Vec<u8>,
    pub characteristics: u16,
}

#[verifier::ext_equal]
pub struct SectionV {
    pub name: Seq<char>,
    pub data: Seq<u8>,
    pub characteristics: u32,
    pub relocations: Seq<Relocation>,
}

impl View for Section {
    type V = SectionV;

    open spec fn view(&self) -> SectionV {
        SectionV {
            name: self.name@,
            data: self.data@,
            characteristics: self.characteristics,
            relocations: self.relocations@,
        }
    }
}

#[verifier::ext_equal]
pub struct SymbolV {
    pub name: Seq<char>,
    pub value: u32,
    pub section_number: i16,
    pub type_flags: u16,
    pub storage_class: u8,
    pub aux_symbols: Seq<Seq<u8>>,
}

impl View for Symbol {
    type V = SymbolV;

    open spec fn view(&self) -> SymbolV {
        SymbolV {
            name: self.name@,
            value: self.value,
            section_number: self.section_number,
            type_flags: self.type_flags,
            storage_class: self.storage_class,
            aux_symbols: self.aux_symbols@.map_values(|a: [u8; 18]| a@),
        }
    }
}

#[verifier::ext_equal]
pub struct CoffV {
    pub machine: u16,
    pub timestamp: u32,
    pub sections: Seq<SectionV>,
    pub symbols: Seq<SymbolV>,
    pub optional_header: Seq<u8>,
    pub characteristics: u16,
}

impl View for Coff {
    type V = CoffV;

    open spec fn view(&self) -> CoffV {
        CoffV {
            machine: self.machine,
            timestamp: self.timestamp,
            sections: self.sections@.map_values(|s: Section| s@),
            symbols: self.symbols@.map_values(|s: Symbol| s@),
            optional_header: self.optional_header@,
            characteristics: self.characteristics,
        }
    }
}

/// Capacity overflow of a fixed-width on-disk field: data-dependent,
/// recoverable failures.
#[derive(Debug, Clone, Copy, PartialEq, Eq, Structural)]
pub enum CoffError {
    /// More sections than the 16-bit section count can hold.
    TooManySections,
    /// A section's raw data is longer than its 32-bit size field can hold.
    SectionDataTooLarge,
    /// A section name too long for its inline field whose `"/" + decimal
    /// string-table offset` form does not fit the 8-byte name field either.
    SectionNameOffsetTooLarge,
}

/// A name as it appears in the file: the UTF-8 bytes of the string.
pub open spec fn name_bytes(name: Seq<char>) -> Seq<u8> {
    vstd::utf8::encode_utf8(name)
}

pub open spec fn zero_bytes(n: nat) -> Seq<u8> {
    Seq::new(n, |i: int| 0u8)
}

/// A section header's 8-byte name field: the name inline and zero-padded if
/// it fits, else `"/"` followed by the decimal string-table offset where the
/// full name is queued, zero-padded to 8 bytes.
pub open spec fn section_name_field(nb: Seq<u8>, st: int) -> Seq<u8> {
    if nb.len() <= 8 {
        nb + zero_bytes((8 - nb.len()) as nat)
    } else {
        let sn = seq![47u8] + dec_bytes(st as nat);
        sn + zero_bytes((8 - sn.len()) as nat)
    }
}

/// A symbol entry's 8-byte name field: inline and zero-padded if it fits,
/// else four zero bytes followed by the 32-bit string-table offset.
pub open spec fn symbol_name_field(nb: Seq<u8>, st: int) -> Seq<u8> {
    if nb.len() <= 8 {
        nb + zero_bytes((8 - nb.len()) as nat)
    } else {
        le_bytes(0, 4) + le_bytes(st, 4)
    }
}

/// The string-table offset accumulator after one name: a name that does not
/// fit inline queues its bytes and advances the offset by its length plus
/// one (for the NUL), in the file's 32-bit arithmetic.
pub open spec fn st_step(nb: Seq<u8>, st: int) -> int {
    if nb.len() <= 8 {
        st
    } else {
        (st + nb.len() + 1) % (FIELD_MOD as int)
    }
}

/// One 40-byte section header.
pub open spec fn section_header_bytes(s: SectionV, data_off: int, reloc_off: int, st: int) -> Seq<
    u8,
> {
    section_name_field(name_bytes(s.name), st) + le_bytes(0, 4)  // virtual size
     + le_bytes(0, 4)  // virtual address
     + le_bytes(s.data.len() as int, 4) + le_bytes(
        if s.data.len() > 0 {
            data_off
        } else {
            0
        },
        4,
    ) + le_bytes(
        if s.relocations.len() > 0 {
            reloc_off
        } else {
            0
        },
        4,
    ) + le_bytes(0, 4)  // line-number offset
     + le_bytes(s.relocations.len() as int, 2) + le_bytes(0, 2)  // line-number count
     + le_bytes(s.characteristics as int, 4)
}

/// All section headers, threading the three running offsets.
pub open spec fn section_headers_bytes(
    secs: Seq<SectionV>,
    data_off: int,
    reloc_off: int,
    st: int,
) -> Seq<u8>
    decreases secs.len(),
{
    if secs.len() == 0 {
        Seq::empty()
    } else {
        let s = secs[0];
        section_header_bytes(s, data_off, reloc_off, st) + section_headers_bytes(
            secs.skip(1),
            (data_off + s.data.len()) % (FIELD_MOD as int),
            (reloc_off + (s.relocations.len() as int % (FIELD_MOD as int)) * 10) % (FIELD_MOD as int),
            st_step(name_bytes(s.name), st),
        )
    }
}

/// The string-table offset after all section names.
pub open spec fn sections_st(secs: Seq<SectionV>, st: int) -> int
    decreases secs.len(),
{
    if secs.len() == 0 {
        st
    } else {
        sections_st(secs.skip(1), st_step(name_bytes(secs[0].name), st))
    }
}

/// The long section names queued for the string table, in order.
pub open spec fn sections_queued(secs: Seq<SectionV>) -> Seq<Seq<u8>>
    decreases secs.len(),
{
    if secs.len() == 0 {
        Seq::empty()
    } else {
        let nb = name_bytes(secs[0].name);
        (if nb.len() <= 8 {
            Seq::<Seq<u8>>::empty()
        } else {
            seq![nb]
        }) + sections_queued(secs.skip(1))
    }
}

/// Every long section name's `"/" + decimal offset` form fits the 8-byte
/// inline field, given the starting string-table offset.
pub open spec fn section_names_fit(secs: Seq<SectionV>, st: int) -> bool
    decreases secs.len(),
{
    if secs.len() == 0 {
        true
    } else {
        let nb = name_bytes(secs[0].name);
        &&& (nb.len() > 8 ==> 1 + dec_bytes(st as nat).len() <= 8)
        &&& section_names_fit(secs.skip(1), st_step(nb, st))
    }
}

/// The concatenated raw section data, in declaration order, unpadded.
pub open spec fn all_section_data(secs: Seq<SectionV>) -> Seq<u8>
    decreases secs.len(),
{
    if secs.len() == 0 {
        Seq::empty()
    } else {
        secs[0].data + all_section_data(secs.skip(1))
    }
}

/// One 10-byte relocation record.
pub open spec fn relocation_bytes(r: Relocation) -> Seq<u8> {
    le_bytes(r.virtual_address as int, 4) + le_bytes(r.symbol_index as int, 4) + le_bytes(
        r.type_flags as int,
        2,
    )
}

pub open spec fn relocations_bytes(rs: Seq<Relocation>) -> Seq<u8>
    decreases rs.len(),
{
    if rs.len() == 0 {
        Seq::empty()
    } else {
        relocation_bytes(rs[0]) + relocations_bytes(rs.skip(1))
    }
}

pub open spec fn all_relocations(secs: Seq<SectionV>) -> Seq<u8>
    decreases secs.len(),
{
    if secs.len() == 0 {
        Seq::empty()
    } else {
        relocations_bytes(secs[0].relocations) + all_relocations(secs.skip(1))
    }
}

pub open spec fn aux_records_bytes(aux: Seq<Seq<u8>>) -> Seq<u8>
    decreases aux.len(),
{
    if aux.len() == 0 {
        Seq::empty()
    } else {
        aux[0] + aux_records_bytes(aux.skip(1))
    }
}

/// One 18-byte symbol entry followed by its raw auxiliary records.
pub open spec fn symbol_entry_bytes(s: SymbolV, st: int) -> Seq<u8> {
    symbol_name_field(name_bytes(s.name), st) + le_bytes(s.value as int, 4) + le_bytes(
        s.section_number as int,
        2,
    ) + le_bytes(s.type_flags as int, 2) + le_bytes(s.storage_class as int, 1) + le_bytes(
        s.aux_symbols.len() as int,
        1,
    ) + aux_records_bytes(s.aux_symbols)
}

pub open spec fn symbol_entries_bytes(syms: Seq<SymbolV>, st: int) -> Seq<u8>
    decreases syms.len(),
{
    if syms.len() == 0 {
        Seq::empty()
    } else {
        symbol_entry_bytes(syms[0], st) + symbol_entries_bytes(
            syms.skip(1),
            st_step(name_bytes(syms[0].name), st),
        )
    }
}

pub open spec fn symbols_st(syms: Seq<SymbolV>, st: int) -> int
    decreases syms.len(),
{
    if syms.len() == 0 {
        st
    } else {
        symbols_st(syms.skip(1), st_step(name_bytes(syms[0].name), st))
    }
}

pub open spec fn symbols_queued(syms: Seq<SymbolV>) -> Seq<Seq<u8>>
    decreases syms.len(),
{
    if syms.len() == 0 {
        Seq::empty()
    } else {
        let nb = name_bytes(syms[0].name);
        (if nb.len() <= 8 {
            Seq::<Seq<u8>>::empty()
        } else {
            seq![nb]
        }) + symbols_queued(syms.skip(1))
    }
}

/// The count written to the header's symbol field: one per symbol plus its
/// auxiliary records, accumulated in the file's 32-bit arithmetic.
pub open spec fn symbol_count_m(syms: Seq<SymbolV>) -> int
    decreases syms.len(),
{
    if syms.len() == 0 {
        0
    } else {
        (symbol_count_m(syms.take(syms.len() - 1)) + 1 + syms.last().aux_symbols.len()) % (
        FIELD_MOD as int)
    }
}

/// The concatenated section data lengths, accumulated in the file's 32-bit
/// arithmetic.
pub open spec fn total_data_m(secs: Seq<SectionV>) -> int
    decreases secs.len(),
{
    if secs.len() == 0 {
        0
    } else {
        (total_data_m(secs.take(secs.len() - 1)) + secs.last().data.len()) % (FIELD_MOD as int)
    }
}

/// The total relocation count, accumulated in the file's 32-bit arithmetic.
pub open spec fn total_relocs_m(secs: Seq<SectionV>) -> int
    decreases secs.len(),
{
    if secs.len() == 0 {
        0
    } else {
        (total_relocs_m(secs.take(secs.len() - 1)) + secs.last().relocations.len()) % (
        FIELD_MOD as int)
    }
}

/// The file offset where raw section data begins.
pub open spec fn section_body_start(c: CoffV) -> int {
    (20 + 40 * c.sections.len() as int) % (FIELD_MOD as int)
}

/// The file offset where relocation records begin.
pub open spec fn relocation_start(c: CoffV) -> int {
    (section_body_start(c) + total_data_m(c.sections)) % (FIELD_MOD as int)
}

/// The file offset of the symbol table, as written to the header.
pub open spec fn symbol_table_start(c: CoffV) -> int {
    (relocation_start(c) + total_relocs_m(c.sections) * 10 % (FIELD_MOD as int)) % (
    FIELD_MOD as int)
}

/// The 20-byte COFF file header.
pub open spec fn coff_header_bytes(c: CoffV) -> Seq<u8> {
    le_bytes(c.machine as int, 2) + le_bytes(c.sections.len() as int, 2) + le_bytes(
        c.timestamp as int,
        4,
    ) + le_bytes(symbol_table_start(c), 4) + le_bytes(symbol_count_m(c.symbols), 4) + le_bytes(
        c.optional_header.len() as int,
        2,
    ) + le_bytes(c.characteristics as int, 2)
}

/// The trailing string table: its own total length (the first four logical
/// bytes, so queued-name offsets start at 4), then each queued name,
/// NUL-terminated, in the order enqueued.
pub open spec fn string_table_bytes(final_st: int, queued: Seq<Seq<u8>>) -> Seq<u8>
    decreases queued.len(),
{
    if queued.len() == 0 {
        le_bytes(final_st, 4)
    } else {
        string_table_bytes(final_st, queued.take(queued.len() - 1)) + queued.last() + seq![0u8]
    }
}

/// The whole serialized object, or the capacity error that prevents it.
pub open spec fn coff_bytes(c: CoffV) -> Result<Seq<u8>, CoffError> {
    if c.sections.len() > 0xFFFF {
        Err(CoffError::TooManySections)
    } else if exists|i: int|
        0 <= i < c.sections.len() && (#[trigger] c.sections[i].data.len()) > 0xFFFF_FFFF {
        Err(CoffError::SectionDataTooLarge)
    } else if !section_names_fit(c.sections, 4) {
        Err(CoffError::SectionNameOffsetTooLarge)
    } else {
        let st_after_sections = sections_st(c.sections, 4);
        Ok(
            coff_header_bytes(c) + section_headers_bytes(
                c.sections,
                section_body_start(c),
                relocation_start(c),
                4,
            ) + all_section_data(c.sections) + all_relocations(c.sections) + symbol_entries_bytes(
                c.symbols,
                st_after_sections,
            ) + string_table_bytes(
                symbols_st(c.symbols, st_after_sections),
                sections_queued(c.sections) + symbols_queued(c.symbols),
            ),
        )
    }
}

impl Coff {
    /// Serialize the object into `wtr`. On a capacity error nothing is
    /// written. The optional header must be empty (its encoding is
    /// unsupported), and every section name too long for its inline field
    /// must map to a string-table offset of at most seven decimal digits,
    /// so that `"/" + digits` fits the 8-byte name field.
    #[verifier::rlimit(100)]
    #[verifier::spinoff_prover]
    pub fn write(&self, wtr: &mut Vec<u8>) -> (r: Result<(), CoffError>)
        requires
            self.optional_header@.len() == 0,
            section_names_fit(self@.sections, 4),
        ensures
            match r {
                Ok(_) => coff_bytes(self@) is Ok && final(wtr)@ == old(wtr)@ + coff_bytes(
                    self@,
                )->Ok_0,
                Err(e) => coff_bytes(self@) == Err::<Seq<u8>, CoffError>(e) && final(wtr)@ == old(
                    wtr,
                )@,
            },
    {
        let ghost c = self@;
        let totals = match self.check_capacity() {
            Err(e) => {
                return Err(e);
            },
            Ok(t) => t,
        };
        if !check_names_fit(&self.sections) {
            return Err(CoffError::SectionNameOffsetTooLarge);
        }
        let sbs64: u64 = 20 + 40 * (self.sections.len() as u64);
        proof {
            vstd::arithmetic::div_mod::lemma_small_mod(sbs64 as nat, 0x1_0000_0000);
        }
        let rs64: u64 = add_mod32(sbs64, totals.0);
        let ghost w0 = wtr@;
        self.emit_header(wtr, totals);
        let (st_sec, mut queued) = emit_section_headers(wtr, &self.sections, sbs64, rs64);
        emit_all_data(wtr, &self.sections);
        emit_all_relocations(wtr, &self.sections);
        let st_sym = emit_symbols(wtr, &self.symbols, st_sec, &mut queued);
        emit_string_table(wtr, st_sym, &queued);
        proof {
            assert(queued@.map_values(|v: Vec<u8>| v@) =~= sections_queued(c.sections)
                + symbols_queued(c.symbols));
            assert(wtr@ =~= w0 + coff_bytes(c)->Ok_0);
        }
        Ok(())
    }

    /// Check the fixed-width capacity limits and compute the header's three
    /// running 32-bit totals: data length, relocation count, symbol count.
    fn check_capacity(&self) -> (r: Result<(u64, u64, u64), CoffError>)
        ensures
            match r {
                Ok(t) => {
                    &&& self@.sections.len() <= 0xFFFF
                    &&& (forall|k: int|
                        0 <= k < self@.sections.len() ==> (
                        #[trigger] self@.sections[k].data.len()) <= 0xFFFF_FFFF)
                    &&& t.0 == total_data_m(self@.sections)
                    &&& t.1 == total_relocs_m(self@.sections)
                    &&& t.2 == symbol_count_m(self@.symbols)
                },
                Err(e) => coff_bytes(self@) == Err::<Seq<u8>, CoffError>(e),
            },
    {
        let ghost c = self@;
        if self.sections.len() > 0xFFFF {
            return Err(CoffError::TooManySections);
        }
        let mut i: usize = 0;
        while i < self.sections.len()
            invariant
                i <= self.sections@.len(),
                c == self@,
                c.sections.len() == self.sections@.len(),
                c.sections.len() <= 0xFFFF,
                forall|k: int|
                    0 <= k < i ==> (#[trigger] c.sections[k].data.len()) <= 0xFFFF_FFFF,
            decreases self.sections@.len() - i,
        {
            if (self.sections[i].data.len() as u64) > 0xFFFF_FFFF {
                proof {
                    assert(c.sections[i as int] == self.sections@[i as int]@);
                    assert(c.sections[i as int].data.len() > 0xFFFF_FFFF);
                }
                return Err(CoffError::SectionDataTooLarge);
            }
            i = i + 1;
        }
        let mut tdm: u64 = 0;
        let mut trm: u64 = 0;
        let mut j: usize = 0;
        while j < self.sections.len()
            invariant
                j <= self.sections@.len(),
                c == self@,
                c.sections.len() == self.sections@.len(),
                tdm == total_data_m(c.sections.take(j as int)),
                trm == total_relocs_m(c.sections.take(j as int)),
            decreases self.sections@.len() - j,
        {
            let ghost pre = c.sections.take(j as int);
            tdm = add_mod32(tdm, self.sections[j].data.len() as u64);
            trm = add_mod32(trm, self.sections[j].relocations.len() as u64);
            j = j + 1;
            proof {
                assert(c.sections.take(j as int).take(j - 1) =~= pre);
                assert(c.sections.take(j as int).last() == c.sections[j - 1]);
            }
        }
        let mut scm: u64 = 0;
        let mut j2: usize = 0;
        while j2 < self.symbols.len()
            invariant
                j2 <= self.symbols@.len(),
                c == self@,
                c.symbols.len() == self.symbols@.len(),
                scm == symbol_count_m(c.symbols.take(j2 as int)),
            decreases self.symbols@.len() - j2,
        {
            let ghost pre = c.symbols.take(j2 as int);
            scm = add3_mod32(scm, 1, self.symbols[j2].aux_symbols.len() as u64);
            j2 = j2 + 1;
            proof {
                assert(c.symbols.take(j2 as int).take(j2 - 1) =~= pre);
                assert(c.symbols.take(j2 as int).last() == c.symbols[j2 - 1]);
                assert(c.symbols[j2 - 1].aux_symbols.len() == self.symbols@[j2 - 1]@.aux_symbols.len());
            }
        }
        proof {
            assert(c.sections.take(c.sections.len() as int) =~= c.sections);
            assert(c.symbols.take(c.symbols.len() as int) =~= c.symbols);
        }
        Ok((tdm, trm, scm))
    }

    /// The 20-byte file header, from the precomputed 32-bit totals.
    fn emit_header(&self, wtr: &mut Vec<u8>, totals: (u64, u64, u64))
        requires
            totals.0 == total_data_m(self@.sections),
            totals.1 == total_relocs_m(self@.sections),
            totals.2 == symbol_count_m(self@.symbols),
            self@.sections.len() <= 0xFFFF,
        ensures
            final(wtr)@ == old(wtr)@ + coff_header_bytes(self@),
    {
        let ghost c = self@;
        let sbs64: u64 = 20 + 40 * (self.sections.len() as u64);
        proof {
            vstd::arithmetic::div_mod::lemma_small_mod(sbs64 as nat, 0x1_0000_0000);
        }
        let rs64: u64 = add_mod32(sbs64, totals.0);
        let ts64: u64 = addmul_mod32(rs64, totals.1, 10);
        proof {
            vstd::arithmetic::div_mod::lemma_small_mod(totals.1 as nat, 0x1_0000_0000);
            assert(ts64 == symbol_table_start(c));
        }
        let ghost w0 = wtr@;
        push_le(wtr, self.machine as u128, 2);
        push_le(wtr, self.sections.len() as u128, 2);
        push_le(wtr, self.timestamp as u128, 4);
        push_le(wtr, ts64 as u128, 4);
        push_le(wtr, totals.2 as u128, 4);
        push_le(wtr, self.optional_header.len() as u128, 2);
        push_le(wtr, self.characteristics as u128, 2);
        proof {
            assert(wtr@ =~= w0 + coff_header_bytes(c));
        }
    }
}

/// Would every long section name's `"/" + decimal offset` form fit the
/// 8-byte inline field?
fn check_names_fit(sections: &Vec<Section>) -> (r: bool)
    ensures
        r == section_names_fit(sections@.map_values(|s: Section| s@), 4),
{
    let ghost secs = sections@.map_values(|s: Section| s@);
    let mut st: u64 = 4;
    let mut i: usize = 0;
    proof {
        assert(secs.skip(0) =~= secs);
    }
    while i < sections.len()
        invariant
            i <= sections@.len(),
            secs == sections@.map_values(|s: Section| s@),
            secs.len() == sections@.len(),
            st < 0x1_0000_0000,
            section_names_fit(secs, 4) == section_names_fit(secs.skip(i as int), st as int),
        decreases sections@.len() - i,
    {
        proof {
            assert(secs.skip(i as int)[0] == secs[i as int]);
            assert(secs.skip(i as int).skip(1) =~= secs.skip(i as int + 1));
            assert(secs[i as int] == sections@[i as int]@);
        }
        let nb = sections[i].name.as_str().as_bytes();
        proof {
            assert(nb@ == name_bytes(secs[i as int].name));
        }
        if nb.len() > 8 {
            let d = to_decimal(st);
            if d.len() > 7 {
                return false;
            }
            st = add3_mod32(st, nb.len() as u64, 1);
        }
        i = i + 1;
    }
    proof {
        assert(secs.skip(i as int) =~= Seq::<SectionV>::empty());
    }
    true
}

/// Emit every 40-byte section header, returning the string-table offset
/// after all section names and the queued long names.
#[verifier::rlimit(100)]
#[verifier::spinoff_prover]
fn emit_section_headers(wtr: &mut Vec<u8>, sections: &Vec<Section>, data_off0: u64, reloc_off0: u64) -> (r: (
    u64,
    Vec<Vec<u8>>,
))
    requires
        data_off0 < 0x1_0000_0000,
        reloc_off0 < 0x1_0000_0000,
        section_names_fit(sections@.map_values(|s: Section| s@), 4),
    ensures
        ({
            let secs = sections@.map_values(|s: Section| s@);
            &&& final(wtr)@ == old(wtr)@ + section_headers_bytes(secs, data_off0 as int, reloc_off0 as int, 4)
            &&& r.0 == sections_st(secs, 4)
            &&& r.0 < 0x1_0000_0000
            &&& r.1@.map_values(|v: Vec<u8>| v@) == sections_queued(secs)
        }),
{
    let ghost secs = sections@.map_values(|s: Section| s@);
    let mut doff = data_off0;
    let mut roff = reloc_off0;
    let mut st: u64 = 4;
    let mut queued: Vec<Vec<u8>> = Vec::new();
    let mut i: usize = 0;
    proof {
        assert(secs.skip(0) =~= secs);
        assert(queued@.map_values(|v: Vec<u8>| v@) + sections_queued(secs) =~= sections_queued(
            secs,
        ));
    }
    while i < sections.len()
        invariant
            i <= sections@.len(),
            secs == sections@.map_values(|s: Section| s@),
            secs.len() == sections@.len(),
            doff < 0x1_0000_0000,
            roff < 0x1_0000_0000,
            st < 0x1_0000_0000,
            section_names_fit(secs.skip(i as int), st as int),
            sections_st(secs, 4) == sections_st(secs.skip(i as int), st as int),
            sections_queued(secs) == queued@.map_values(|v: Vec<u8>| v@) + sections_queued(
                secs.skip(i as int),
            ),
            wtr@.len() >= old(wtr)@.len(),
            wtr@.take(old(wtr)@.len() as int) == old(wtr)@,
            section_headers_bytes(secs, data_off0 as int, reloc_off0 as int, 4) == wtr@.skip(
                old(wtr)@.len() as int,
            ) + section_headers_bytes(secs.skip(i as int), doff as int, roff as int, st as int),
        decreases sections@.len() - i,
    {
        proof {
            assert(secs.skip(i as int)[0] == secs[i as int]);
            assert(secs.skip(i as int).skip(1) =~= secs.skip(i as int + 1));
            assert(secs[i as int] == sections@[i as int]@);
        }
        let ghost pre_emitted = wtr@.skip(old(wtr)@.len() as int);
        let ghost st0 = st as int;
        let ghost w_entry = wtr@;
        let ghost pre_queued = queued@;
        let s = &sections[i];
        let nb = s.name.as_str().as_bytes();
        let ghost nbs = name_bytes(secs[i as int].name);
        assert(nb@ == nbs);
        if nb.len() <= 8 {
            push_bytes(wtr, nb);
            push_repeat(wtr, 0, 8 - nb.len());
        } else {
            let d = to_decimal(st);
            assert(1 + d@.len() <= 8);
            wtr.push(47);
            push_bytes(wtr, d.as_slice());
            push_repeat(wtr, 0, 8 - (1 + d.len()));
            queued.push(vstd::slice::slice_to_vec(nb));
            st = add3_mod32(st, nb.len() as u64, 1);
        }
        proof {
            assert(wtr@ =~= w_entry + section_name_field(nbs, st0));
            assert(st as int == st_step(nbs, st0));
        }
        push_le(wtr, 0, 4);
        push_le(wtr, 0, 4);
        push_le(wtr, s.data.len() as u128, 4);
        if s.data.len() > 0 {
            push_le(wtr, doff as u128, 4);
        } else {
            push_le(wtr, 0, 4);
        }
        if s.relocations.len() > 0 {
            push_le(wtr, roff as u128, 4);
        } else {
            push_le(wtr, 0, 4);
        }
        push_le(wtr, 0, 4);
        push_le(wtr, s.relocations.len() as u128, 2);
        push_le(wtr, 0, 2);
        push_le(wtr, s.characteristics as u128, 4);
        proof {
            assert(wtr@ =~= w_entry + section_header_bytes(
                secs[i as int],
                doff as int,
                roff as int,
                st0,
            ));
        }
        let ghost olddoff = doff as int;
        let ghost oldroff = roff as int;
        doff = add_mod32(doff, s.data.len() as u64);
        roff = addmul_mod32(roff, s.relocations.len() as u64, 10);
        i = i + 1;
        proof {
            assert(wtr@.skip(old(wtr)@.len() as int) =~= pre_emitted + section_header_bytes(
                secs[i - 1],
                olddoff,
                oldroff,
                st0,
            ));
            assert(wtr@.take(old(wtr)@.len() as int) =~= old(wtr)@);
            assert(section_headers_bytes(secs.skip(i - 1), olddoff, oldroff, st0)
                == section_header_bytes(secs[i - 1], olddoff, oldroff, st0)
                + section_headers_bytes(
                secs.skip(i as int),
                doff as int,
                roff as int,
                st as int,
            ));
            assert(section_headers_bytes(secs, data_off0 as int, reloc_off0 as int, 4) =~= wtr@.skip(
                old(wtr)@.len() as int,
            ) + section_headers_bytes(secs.skip(i as int), doff as int, roff as int, st as int));
            if nbs.len() > 8 {
                assert(sections_queued(secs.skip(i - 1)) =~= seq![nbs] + sections_queued(
                    secs.skip(i as int),
                ));
                assert(queued@.map_values(|v: Vec<u8>| v@) =~= pre_queued.map_values(
                    |v: Vec<u8>| v@,
                ).push(nbs));
            } else {
                assert(sections_queued(secs.skip(i - 1)) =~= sections_queued(secs.skip(i as int)));
            }
            assert(sections_queued(secs) =~= queued@.map_values(|v: Vec<u8>| v@)
                + sections_queued(secs.skip(i as int)));
        }
    }
    proof {
        assert(secs.skip(i as int) =~= Seq::<SectionV>::empty());
        assert(wtr@ =~= old(wtr)@ + wtr@.skip(old(wtr)@.len() as int));
        assert(queued@.map_values(|v: Vec<u8>| v@) + sections_queued(secs.skip(i as int))
            =~= queued@.map_values(|v: Vec<u8>| v@));
    }
    (st, queued)
}

/// Emit the concatenated raw section data.
fn emit_all_data(wtr: &mut Vec<u8>, sections: &Vec<Section>)
    ensures
        final(wtr)@ == old(wtr)@ + all_section_data(sections@.map_values(|s: Section| s@)),
{
    let ghost secs = sections@.map_values(|s: Section| s@);
    let mut i: usize = 0;
    proof {
        assert(secs.skip(0) =~= secs);
    }
    while i < sections.len()
        invariant
            i <= sections@.len(),
            secs == sections@.map_values(|s: Section| s@),
            secs.len() == sections@.len(),
            wtr@.len() >= old(wtr)@.len(),
            wtr@.take(old(wtr)@.len() as int) == old(wtr)@,
            all_section_data(secs) == wtr@.skip(old(wtr)@.len() as int) + all_section_data(
                secs.skip(i as int),
            ),
        decreases sections@.len() - i,
    {
        proof {
            assert(secs.skip(i as int)[0] == secs[i as int]);
            assert(secs.skip(i as int).skip(1) =~= secs.skip(i as int + 1));
            assert(secs[i as int] == sections@[i as int]@);
        }
        let ghost pre_emitted = wtr@.skip(old(wtr)@.len() as int);
        push_bytes(wtr, sections[i].data.as_slice());
        i = i + 1;
        proof {
            assert(wtr@.take(old(wtr)@.len() as int) =~= old(wtr)@);
            assert(wtr@.skip(old(wtr)@.len() as int) =~= pre_emitted + secs[i - 1].data);
            assert(all_section_data(secs) =~= wtr@.skip(old(wtr)@.len() as int)
                + all_section_data(secs.skip(i as int)));
        }
    }
    proof {
        assert(secs.skip(i as int) =~= Seq::<SectionV>::empty());
        assert(wtr@ =~= old(wtr)@ + wtr@.skip(old(wtr)@.len() as int));
    }
}

/// Emit one section's 10-byte relocation records.
fn emit_relocations(wtr: &mut Vec<u8>, rs: &Vec<Relocation>)
    ensures
        final(wtr)@ == old(wtr)@ + relocations_bytes(rs@),
{
    let mut i: usize = 0;
    proof {
        assert(rs@.skip(0) =~= rs@);
    }
    while i < rs.len()
        invariant
            i <= rs@.len(),
            wtr@.len() >= old(wtr)@.len(),
            wtr@.take(old(wtr)@.len() as int) == old(wtr)@,
            relocations_bytes(rs@) == wtr@.skip(old(wtr)@.len() as int) + relocations_bytes(
                rs@.skip(i as int),
            ),
        decreases rs@.len() - i,
    {
        proof {
            assert(rs@.skip(i as int)[0] == rs@[i as int]);
            assert(rs@.skip(i as int).skip(1) =~= rs@.skip(i as int + 1));
        }
        let ghost pre_emitted = wtr@.skip(old(wtr)@.len() as int);
        let r = &rs[i];
        push_le(wtr, r.virtual_address as u128, 4);
        push_le(wtr, r.symbol_index as u128, 4);
        push_le(wtr, r.type_flags as u128, 2);
        i = i + 1;
        proof {
            assert(wtr@.take(old(wtr)@.len() as int) =~= old(wtr)@);
            assert(wtr@.skip(old(wtr)@.len() as int) =~= pre_emitted + relocation_bytes(
                rs@[i - 1],
            ));
            assert(relocations_bytes(rs@) =~= wtr@.skip(old(wtr)@.len() as int)
                + relocations_bytes(rs@.skip(i as int)));
        }
    }
    proof {
        assert(rs@.skip(i as int) =~= Seq::<Relocation>::empty());
        assert(wtr@ =~= old(wtr)@ + wtr@.skip(old(wtr)@.len() as int));
    }
}

/// Emit every section's relocations, in declaration order.
fn emit_all_relocations(wtr: &mut Vec<u8>, sections: &Vec<Section>)
    ensures
        final(wtr)@ == old(wtr)@ + all_relocations(sections@.map_values(|s: Section| s@)),
{
    let ghost secs = sections@.map_values(|s: Section| s@);
    let mut i: usize = 0;
    proof {
        assert(secs.skip(0) =~= secs);
    }
    while i < sections.len()
        invariant
            i <= sections@.len(),
            secs == sections@.map_values(|s: Section| s@),
            secs.len() == sections@.len(),
            wtr@.len() >= old(wtr)@.len(),
            wtr@.take(old(wtr)@.len() as int) == old(wtr)@,
            all_relocations(secs) == wtr@.skip(old(wtr)@.len() as int) + all_relocations(
                secs.skip(i as int),
            ),
        decreases sections@.len() - i,
    {
        proof {
            assert(secs.skip(i as int)[0] == secs[i as int]);
            assert(secs.skip(i as int).skip(1) =~= secs.skip(i as int + 1));
            assert(secs[i as int] == sections@[i as int]@);
        }
        let ghost pre_emitted = wtr@.skip(old(wtr)@.len() as int);
        emit_relocations(wtr, &sections[i].relocations);
        i = i + 1;
        proof {
            assert(wtr@.take(old(wtr)@.len() as int) =~= old(wtr)@);
            assert(wtr@.skip(old(wtr)@.len() as int) =~= pre_emitted + relocations_bytes(
                secs[i - 1].relocations,
            ));
            assert(all_relocations(secs) =~= wtr@.skip(old(wtr)@.len() as int) + all_relocations(
                secs.skip(i as int),
            ));
        }
    }
    proof {
        assert(secs.skip(i as int) =~= Seq::<SectionV>::empty());
        assert(wtr@ =~= old(wtr)@ + wtr@.skip(old(wtr)@.len() as int));
    }
}

/// Emit every 18-byte symbol entry with its auxiliary records, continuing
/// the string-table offset where the section names left it; long names are
/// appended to `queued`.
#[verifier::rlimit(100)]
#[verifier::spinoff_prover]
fn emit_symbols(wtr: &mut Vec<u8>, symbols: &Vec<Symbol>, st0: u64, queued: &mut Vec<Vec<u8>>) -> (st:
    u64)
    requires
        st0 < 0x1_0000_0000,
    ensures
        ({
            let syms = symbols@.map_values(|s: Symbol| s@);
            &&& final(wtr)@ == old(wtr)@ + symbol_entries_bytes(syms, st0 as int)
            &&& st == symbols_st(syms, st0 as int)
            &&& st < 0x1_0000_0000
            &&& final(queued)@.map_values(|v: Vec<u8>| v@) == old(queued)@.map_values(
                |v: Vec<u8>| v@,
            ) + symbols_queued(syms)
        }),
{
    let ghost syms = symbols@.map_values(|s: Symbol| s@);
    let mut st = st0;
    let mut i: usize = 0;
    proof {
        assert(syms.skip(0) =~= syms);
        assert(old(queued)@.map_values(|v: Vec<u8>| v@) + symbols_queued(syms.skip(0))
            =~= queued@.map_values(|v: Vec<u8>| v@) + symbols_queued(syms));
    }
    while i < symbols.len()
        invariant
            i <= symbols@.len(),
            syms == symbols@.map_values(|s: Symbol| s@),
            syms.len() == symbols@.len(),
            st < 0x1_0000_0000,
            symbols_st(syms, st0 as int) == symbols_st(syms.skip(i as int), st as int),
            old(queued)@.map_values(|v: Vec<u8>| v@) + symbols_queued(syms) == queued@.map_values(
                |v: Vec<u8>| v@,
            ) + symbols_queued(syms.skip(i as int)),
            wtr@.len() >= old(wtr)@.len(),
            wtr@.take(old(wtr)@.len() as int) == old(wtr)@,
            symbol_entries_bytes(syms, st0 as int) == wtr@.skip(old(wtr)@.len() as int)
                + symbol_entries_bytes(syms.skip(i as int), st as int),
        decreases symbols@.len() - i,
    {
        proof {
            assert(syms.skip(i as int)[0] == syms[i as int]);
            assert(syms.skip(i as int).skip(1) =~= syms.skip(i as int + 1));
            assert(syms[i as int] == symbols@[i as int]@);
        }
        let ghost pre_emitted = wtr@.skip(old(wtr)@.len() as int);
        let ghost pre_queued = queued@;
        let ghost st_before = st as int;
        let ghost w_entry = wtr@;
        let s = &symbols[i];
        let nb = s.name.as_str().as_bytes();
        let ghost nbs = name_bytes(syms[i as int].name);
        assert(nb@ == nbs);
        if nb.len() <= 8 {
            push_bytes(wtr, nb);
            push_repeat(wtr, 0, 8 - nb.len());
        } else {
            push_le(wtr, 0, 4);
            push_le(wtr, st as u128, 4);
            queued.push(vstd::slice::slice_to_vec(nb));
            st = add3_mod32(st, nb.len() as u64, 1);
        }
        proof {
            assert(wtr@ =~= w_entry + symbol_name_field(nbs, st_before));
            assert(st as int == st_step(nbs, st_before));
        }
        push_le(wtr, s.value as u128, 4);
        push_le_signed(wtr, s.section_number as i64, 2);
        push_le(wtr, s.type_flags as u128, 2);
        push_le(wtr, s.storage_class as u128, 1);
        push_le(wtr, s.aux_symbols.len() as u128, 1);
        emit_aux_records(wtr, &s.aux_symbols);
        i = i + 1;
        proof {
            assert(syms[i - 1].aux_symbols =~= s.aux_symbols@.map_values(|a: [u8; 18]| a@));
            assert(wtr@.take(old(wtr)@.len() as int) =~= old(wtr)@);
            assert(wtr@.skip(old(wtr)@.len() as int) =~= pre_emitted + symbol_entry_bytes(
                syms[i - 1],
                st_before,
            ));
            assert(symbol_entries_bytes(syms, st0 as int) =~= wtr@.skip(old(wtr)@.len() as int)
                + symbol_entries_bytes(syms.skip(i as int), st as int));
            if nbs.len() > 8 {
                assert(symbols_queued(syms.skip(i - 1)) =~= seq![nbs] + symbols_queued(
                    syms.skip(i as int),
                ));
                assert(queued@.map_values(|v: Vec<u8>| v@) =~= pre_queued.map_values(
                    |v: Vec<u8>| v@,
                ).push(nbs));
            } else {
                assert(symbols_queued(syms.skip(i - 1)) =~= symbols_queued(syms.skip(i as int)));
            }
            assert(old(queued)@.map_values(|v: Vec<u8>| v@) + symbols_queued(syms)
                =~= queued@.map_values(|v: Vec<u8>| v@) + symbols_queued(syms.skip(i as int)));
        }
    }
    proof {
        assert(syms.skip(i as int) =~= Seq::<SymbolV>::empty());
        assert(wtr@ =~= old(wtr)@ + wtr@.skip(old(wtr)@.len() as int));
        assert(old(queued)@.map_values(|v: Vec<u8>| v@) + symbols_queued(syms)
            =~= queued@.map_values(|v: Vec<u8>| v@));
    }
    st
}

/// Emit a symbol's raw 18-byte auxiliary records.
fn emit_aux_records(wtr: &mut Vec<u8>, aux: &Vec<[u8; 18]>)
    ensures
        final(wtr)@ == old(wtr)@ + aux_records_bytes(aux@.map_values(|a: [u8; 18]| a@)),
{
    let ghost auxv = aux@.map_values(|a: [u8; 18]| a@);
    let mut i: usize = 0;
    proof {
        assert(auxv.skip(0) =~= auxv);
    }
    while i < aux.len()
        invariant
            i <= aux@.len(),
            auxv == aux@.map_values(|a: [u8; 18]| a@),
            auxv.len() == aux@.len(),
            wtr@.len() >= old(wtr)@.len(),
            wtr@.take(old(wtr)@.len() as int) == old(wtr)@,
            aux_records_bytes(auxv) == wtr@.skip(old(wtr)@.len() as int) + aux_records_bytes(
                auxv.skip(i as int),
            ),
        decreases aux@.len() - i,
    {
        proof {
            assert(auxv.skip(i as int)[0] == auxv[i as int]);
            assert(auxv.skip(i as int).skip(1) =~= auxv.skip(i as int + 1));
            assert(auxv[i as int] == aux@[i as int]@);
        }
        let ghost pre_emitted = wtr@.skip(old(wtr)@.len() as int);
        push_bytes(wtr, aux[i].as_slice());
        i = i + 1;
        proof {
            assert(wtr@.take(old(wtr)@.len() as int) =~= old(wtr)@);
            assert(wtr@.skip(old(wtr)@.len() as int) =~= pre_emitted + auxv[i - 1]);
            assert(aux_records_bytes(auxv) =~= wtr@.skip(old(wtr)@.len() as int)
                + aux_records_bytes(auxv.skip(i as int)));
        }
    }
    proof {
        assert(auxv.skip(i as int) =~= Seq::<Seq<u8>>::empty());
        assert(wtr@ =~= old(wtr)@ + wtr@.skip(old(wtr)@.len() as int));
    }
}

/// Emit the trailing string table: its 32-bit total length, then each
/// queued name NUL-terminated.
fn emit_string_table(wtr: &mut Vec<u8>, final_st: u64, queued: &Vec<Vec<u8>>)
    ensures
        final(wtr)@ == old(wtr)@ + string_table_bytes(
            final_st as int,
            queued@.map_values(|v: Vec<u8>| v@),
        ),
{
    let ghost q = queued@.map_values(|v: Vec<u8>| v@);
    push_le(wtr, final_st as u128, 4);
    proof {
        assert(string_table_bytes(final_st as int, q.take(0)) =~= le_bytes(final_st as int, 4));
        assert(wtr@ =~= old(wtr)@ + string_table_bytes(final_st as int, q.take(0)));
    }
    let mut i: usize = 0;
    while i < queued.len()
        invariant
            i <= queued@.len(),
            q == queued@.map_values(|v: Vec<u8>| v@),
            q.len() == queued@.len(),
            wtr@ == old(wtr)@ + string_table_bytes(final_st as int, q.take(i as int)),
        decreases queued@.len() - i,
    {
        push_bytes(wtr, queued[i].as_slice());
        wtr.push(0);
        i = i + 1;
        proof {
            assert(q.take(i as int).take(i - 1) =~= q.take(i - 1));
            assert(q.take(i as int).last() == q[i - 1]);
            assert(q[i - 1] == queued@[i - 1]@);
            assert(wtr@ =~= old(wtr)@ + string_table_bytes(final_st as int, q.take(i as int)));
        }
    }
    proof {
        assert(q.take(q.len() as int) =~= q);
    }
}

/// A symbol name of at most 8 bytes is stored inline, zero-padded to 8
/// bytes, and queues nothing.
pub proof fn lemma_symbol_name_inline(s: SymbolV, st: int)
    requires
        name_bytes(s.name).len() <= 8,
    ensures
        symbol_entry_bytes(s, st).subrange(0, 8) == name_bytes(s.name) + zero_bytes(
            (8 - name_bytes(s.name).len()) as nat,
        ),
        st_step(name_bytes(s.name), st) == st,
{
    let nb = name_bytes(s.name);
    assert(symbol_entry_bytes(s, st).subrange(0, 8) =~= nb + zero_bytes((8 - nb.len()) as nat));
}

/// A symbol name longer than 8 bytes stores four zero bytes, then its
/// 32-bit string-table offset; the name itself is queued for the string
/// table and the offset advances past it and its NUL terminator.
pub proof fn lemma_symbol_name_overflow(s: SymbolV, st: int)
    requires
        name_bytes(s.name).len() > 8,
    ensures
        symbol_entry_bytes(s, st).subrange(0, 4) == le_bytes(0, 4),
        symbol_entry_bytes(s, st).subrange(4, 8) == le_bytes(st, 4),
        st_step(name_bytes(s.name), st) == (st + name_bytes(s.name).len() + 1) % (FIELD_MOD as int),
{
    crate::emit::lemma_le_bytes_len(0, 4);
    crate::emit::lemma_le_bytes_len(st, 4);
    assert(symbol_entry_bytes(s, st).subrange(0, 4) =~= le_bytes(0, 4));
    assert(symbol_entry_bytes(s, st).subrange(4, 8) =~= le_bytes(st, 4));
}

} // verus!
