use rasm::coff::Coff;
use rasm::coff::Section;
use rasm::coff::Symbol;
use rasm::coff::MACHINE_AMD64;
use rasm::elf::Architecture;
use rasm::elf::Elf;
use rasm::elf::Endianness;
use rasm::elf::Function;
use rasm::elf::StringTable;
use rasm::elf::WordSize;
use rasm::object_file::write_archive_footer;
use rasm::object_file::write_archive_header;
use rasm::object_file::ExportedFunction;
use rasm::object_file::ObjectFile;

fn u32_at(bytes: &[u8], at: usize) -> u32 {
    (bytes[at] as u32)
        | ((bytes[at + 1] as u32) << 8)
        | ((bytes[at + 2] as u32) << 16)
        | ((bytes[at + 3] as u32) << 24)
}

fn u64_at(bytes: &[u8], at: usize) -> u64 {
    (u32_at(bytes, at) as u64) | ((u32_at(bytes, at + 4) as u64) << 32)
}

#[test]
fn coff_long_section_name_goes_through_string_table() {
    let c = Coff {
        machine: MACHINE_AMD64,
        timestamp: 0,
        optional_header: Vec::new(),
        characteristics: 0x0004,
        sections: vec![Section {
            name: ".text.unl".to_string(), // nine characters
            characteristics: 0x60500020,
            data: vec![],
            relocations: vec![],
        }],
        symbols: vec![],
    };
    let mut out: Vec<u8> = Vec::new();
    c.write(&mut out).unwrap();
    // the section header's name field holds "/4", zero padded to 8 bytes
    assert_eq!(&out[20..28], b"/4\0\0\0\0\0\0");
    // the trailing string table: 4-byte length covering itself plus the name
    let st_start = 20 + 40;
    assert_eq!(u32_at(&out, st_start), 4 + 9 + 1);
    assert_eq!(&out[st_start + 4..st_start + 14], b".text.unl\0");
    assert_eq!(out.len(), st_start + 14);
}

#[test]
fn coff_short_section_name_is_inline() {
    let c = Coff {
        machine: MACHINE_AMD64,
        timestamp: 7,
        optional_header: Vec::new(),
        characteristics: 0x0004,
        sections: vec![Section {
            name: ".text".to_string(),
            characteristics: 0x60500020,
            data: vec![0xC3],
            relocations: vec![],
        }],
        symbols: vec![],
    };
    let mut out: Vec<u8> = Vec::new();
    c.write(&mut out).unwrap();
    assert_eq!(&out[20..28], b".text\0\0\0");
    // raw data size and file pointer
    assert_eq!(u32_at(&out, 36), 1);
    assert_eq!(u32_at(&out, 40), 60);
    // the single data byte follows the headers
    assert_eq!(out[60], 0xC3);
}

#[test]
fn coff_symbol_names_inline_and_overflowing() {
    let c = Coff {
        machine: MACHINE_AMD64,
        timestamp: 0,
        optional_header: Vec::new(),
        characteristics: 0,
        sections: vec![],
        symbols: vec![
            Symbol {
                name: "foo".to_string(),
                value: 0x11,
                section_number: 1,
                type_flags: 0x20,
                storage_class: 2,
                aux_symbols: vec![],
            },
            Symbol {
                name: "quite_long_name".to_string(), // fifteen characters
                value: 0x22,
                section_number: 1,
                type_flags: 0x20,
                storage_class: 2,
                aux_symbols: vec![],
            },
        ],
    };
    let mut out: Vec<u8> = Vec::new();
    c.write(&mut out).unwrap();
    // no sections: the symbol table starts right after the header
    assert_eq!(&out[20..28], b"foo\0\0\0\0\0");
    assert_eq!(u32_at(&out, 28), 0x11);
    // the long name stores four zero bytes, then its string-table offset
    assert_eq!(&out[38..42], &[0, 0, 0, 0]);
    assert_eq!(u32_at(&out, 42), 4);
    // the string table: length 4 + 15 + 1, then the name
    let st = 20 + 18 * 2;
    assert_eq!(u32_at(&out, st), 20);
    assert_eq!(&out[st + 4..st + 20], b"quite_long_name\0");
}

#[test]
fn coff_aux_records_follow_their_symbol() {
    let mut aux = Vec::new();
    aux.push([0x04u8, 0, 0, 0, 0, 0, 0, 0, 0, 0, 0, 0, 0, 0, 0, 0, 0, 0]);
    let c = Coff {
        machine: MACHINE_AMD64,
        timestamp: 0,
        optional_header: Vec::new(),
        characteristics: 0,
        sections: vec![],
        symbols: vec![Symbol {
            name: ".text".to_string(),
            value: 0,
            section_number: 1,
            type_flags: 0,
            storage_class: 3,
            aux_symbols: aux,
        }],
    };
    let mut out: Vec<u8> = Vec::new();
    c.write(&mut out).unwrap();
    // symbol count includes the aux record
    assert_eq!(u32_at(&out, 12), 2);
    // aux count byte, then the raw 18-byte record
    assert_eq!(out[20 + 17], 1);
    assert_eq!(out[20 + 18], 0x04);
}

#[test]
fn coff_overflowing_section_name_offset_is_refused() {
    // the first long name is fine at offset 4; it pushes the second long
    // name's offset to eight decimal digits, which no longer fits the
    // 8-byte "/offset" field
    let first = "a".repeat(9_999_996);
    let c = Coff {
        machine: MACHINE_AMD64,
        timestamp: 0,
        optional_header: Vec::new(),
        characteristics: 0,
        sections: vec![
            Section {
                name: first,
                characteristics: 0,
                data: vec![],
                relocations: vec![],
            },
            Section {
                name: "also_a_long_name".to_string(),
                characteristics: 0,
                data: vec![],
                relocations: vec![],
            },
        ],
        symbols: vec![],
    };
    let mut out: Vec<u8> = Vec::new();
    assert_eq!(
        c.write(&mut out).unwrap_err(),
        rasm::coff::CoffError::SectionNameOffsetTooLarge
    );
    assert!(out.is_empty());
}

#[test]
fn coff_too_many_sections_is_refused() {
    let mut sections = Vec::new();
    for _ in 0..65536 {
        sections.push(Section {
            name: "s".to_string(),
            characteristics: 0,
            data: vec![],
            relocations: vec![],
        });
    }
    let c = Coff {
        machine: MACHINE_AMD64,
        timestamp: 0,
        optional_header: Vec::new(),
        characteristics: 0,
        sections,
        symbols: vec![],
    };
    let mut out: Vec<u8> = Vec::new();
    assert_eq!(c.write(&mut out).unwrap_err(), rasm::coff::CoffError::TooManySections);
    assert!(out.is_empty());
}

#[test]
fn elf_identification_and_alignment() {
    let e = Elf {
        architecture: Architecture::X8664,
        word_size: WordSize::Bits64,
        endianness: Endianness::LittleEndian,
        file_name: "fooasm.asm".to_string(),
        functions: vec![
            Function { name: "foo".to_string(), offset: 0 },
            Function { name: "bar".to_string(), offset: 6 },
        ],
        text_content: vec![
            0xb8, 0x04, 0x00, 0x00, 0x00, 0xc3, 0xb8, 0x09, 0x00, 0x00, 0x00, 0xc3,
        ],
    };
    let mut out: Vec<u8> = Vec::new();
    e.write(&mut out);
    assert_eq!(&out[0..4], b"\x7fELF");
    assert_eq!(out[4], 2); // 64-bit
    assert_eq!(out[5], 1); // little-endian
    // section-header count and shstrndx: the last two header fields
    assert_eq!(&out[0x3c..0x3e], &[5, 0]);
    assert_eq!(&out[0x3e..0x40], &[2, 0]);
    // every non-empty section's recorded file offset is 16-byte aligned
    for i in 0..5 {
        let entry = 0x40 + i * 0x40;
        let offset = u64_at(&out, entry + 0x18);
        let size = u64_at(&out, entry + 0x20);
        if size != 0 {
            assert_eq!(offset % 16, 0);
        }
    }
    // the .text body sits at the fixed base
    assert_eq!(u64_at(&out, 0x40 + 0x40 + 0x18), 0x180);
    assert_eq!(&out[0x180..0x186], &[0xb8, 0x04, 0x00, 0x00, 0x00, 0xc3]);
}

#[test]
fn elf_32_bit_header_constants() {
    let e = Elf {
        architecture: Architecture::X86,
        word_size: WordSize::Bits32,
        endianness: Endianness::LittleEndian,
        file_name: "a".to_string(),
        functions: vec![],
        text_content: vec![0x90],
    };
    let mut out: Vec<u8> = Vec::new();
    e.write(&mut out);
    assert_eq!(&out[0..4], b"\x7fELF");
    assert_eq!(out[4], 1); // 32-bit
    assert_eq!(&out[0x30..0x32], &[5, 0]);
    assert_eq!(&out[0x32..0x34], &[2, 0]);
}

#[test]
fn string_table_append_offsets() {
    let mut t = StringTable::new();
    assert_eq!(t.append(""), 0);
    assert_eq!(t.append(".text"), 1);
    assert_eq!(t.append(".data"), 7);
    assert_eq!(t.inner, b"\0.text\0.data\0");
}

#[test]
fn archive_header_pads_size_field_with_trailing_spaces() {
    let payload = vec![0u8; 123];
    let mut out: Vec<u8> = Vec::new();
    write_archive_header(&mut out, &payload).unwrap();
    assert_eq!(out.len(), 68);
    assert_eq!(&out[0..8], b"!<arch>\n");
    assert_eq!(&out[8..24], b"rasm.o/         ");
    assert_eq!(&out[24..36], b"1468364067  ");
    assert_eq!(&out[36..42], b"0     ");
    assert_eq!(&out[42..48], b"0     ");
    assert_eq!(&out[48..56], b"100666  ");
    assert_eq!(&out[56..66], b"123       ");
    assert_eq!(&out[66..68], b"`\n");
}

#[test]
fn archive_footer_pads_odd_members_only() {
    let mut out: Vec<u8> = Vec::new();
    write_archive_footer(&mut out, &[1, 2, 3]);
    assert_eq!(out, vec![0x0a]);
    let mut out2: Vec<u8> = Vec::new();
    write_archive_footer(&mut out2, &[1, 2]);
    assert!(out2.is_empty());
}

#[test]
fn object_file_writes_an_archived_coff_member() {
    let of = ObjectFile {
        functions: vec![ExportedFunction { offset: 0, name: "main".to_string() }],
        code: vec![0xC3],
    };
    let member = of.make_object_file();
    let mut out: Vec<u8> = Vec::new();
    of.write(&mut out).unwrap();
    assert_eq!(&out[0..8], b"!<arch>\n");
    assert_eq!(&out[68..68 + member.len()], &member[..]);
    let expected_pad = member.len() % 2;
    assert_eq!(out.len(), 68 + member.len() + expected_pad);
    // the member is a COFF object for the AMD64 machine
    assert_eq!(&member[0..2], &[0x64, 0x86]);
    // one section, ".text", holding the single code byte
    assert_eq!(&member[20..28], b".text\0\0\0");
    assert_eq!(u32_at(&member, 36), 1);
}

#[test]
fn object_file_elf_image_lists_functions() {
    let of = ObjectFile {
        functions: vec![ExportedFunction { offset: 4, name: "entry".to_string() }],
        code: vec![0x90, 0x90, 0x90, 0x90, 0xC3],
    };
    let out = of.make_elf_file();
    assert_eq!(&out[0..4], b"\x7fELF");
    // the .strtab body contains the file name and the function name
    let bytes = out.as_slice();
    let needle = b"entry\0";
    assert!(bytes.windows(needle.len()).any(|w| w == needle));
    let file_needle = b"fooasm.asm\0";
    assert!(bytes.windows(file_needle.len()).any(|w| w == file_needle));
}
