use rasm::x64::assembler::Assembler;
use rasm::x64::assembler::CollectableToArgs;
use rasm::x64::compiler::EncodeError;
use rasm::x64::compiler::OpShape;
use rasm::x64::compiler::Opdata;
use rasm::x64::parser::Arg;
use rasm::x64::parser::ImmediateValue;
use rasm::x64::parser::MemoryRef;
use rasm::x64::parser::RegFamily;
use rasm::x64::parser::RegId;
use rasm::x64::parser::RegKind;
use rasm::x64::parser::Register;
use rasm::x64::parser::Size;
use rasm::x64::regs::rip_nonrelative;
use rasm::x64::regs::Byte;
use rasm::x64::regs::QWord;
use rasm::x64::x64data;

fn cpuid_table() -> Vec<Opdata> {
    vec![Opdata { ops: vec![0x0F, 0xA2], reg: 0, flags: 0, args: vec![] }]
}

fn add_rm8_imm8_table() -> Vec<Opdata> {
    vec![Opdata {
        ops: vec![0x80],
        reg: 0,
        flags: 0,
        args: vec![OpShape::RegMem(Size::BYTE), OpShape::Imm(Size::BYTE)],
    }]
}

#[test]
fn cpuid_then_add_bl_imm8() {
    let mut x = Assembler::new();
    x.encode("cpuid", &cpuid_table(), &vec![]).unwrap();
    x.encode(
        "add",
        &add_rm8_imm8_table(),
        &vec![
            Arg::Direct(Register { size: Size::BYTE, kind: RegKind::Static(RegId::RBX) }),
            Arg::Immediate(ImmediateValue::I64(8), None),
        ],
    )
    .unwrap();
    let of = x.dump().unwrap();
    assert_eq!(of.code, vec![0x0F, 0xA2, 0x80, 0xC3, 0x08]);
}

#[test]
fn no_matching_variant_is_fatal_and_names_the_mnemonic() {
    let mut x = Assembler::new();
    let r = x.encode("cpuid", &cpuid_table(), &vec![Arg::Immediate(ImmediateValue::I64(1), None)]);
    assert_eq!(r.unwrap_err(), EncodeError::NoMatchingVariant("cpuid".to_string()));
    assert!(x.inner.buffer.is_empty());
}

#[test]
fn short_form_register_in_opcode() {
    // push r64: opcode 0x50 plus the register code
    let table = vec![Opdata {
        ops: vec![0x50],
        reg: 0,
        flags: x64data::SHORT_ARG,
        args: vec![OpShape::Reg(Size::QWORD)],
    }];
    let mut x = Assembler::new();
    x.encode("push", &table, &vec![QWord::Rdx.to_arg()]).unwrap();
    assert_eq!(x.dump().unwrap().code, vec![0x52]);

    let mut y = Assembler::new();
    y.encode("push", &table, &vec![QWord::R9.to_arg()]).unwrap();
    // an extended register needs REX.B
    assert_eq!(y.dump().unwrap().code, vec![0x41, 0x51]);
}

fn mov_rm64_r64_table() -> Vec<Opdata> {
    vec![Opdata {
        ops: vec![0x89],
        reg: 0,
        flags: x64data::AUTO_SIZE,
        args: vec![OpShape::RegMem(Size::QWORD), OpShape::Reg(Size::QWORD)],
    }]
}

#[test]
fn mov_direct_registers_gets_rex_w_and_modrm() {
    let mut x = Assembler::new();
    x.encode("mov", &mov_rm64_r64_table(), &vec![QWord::Rax.to_arg(), QWord::Rcx.to_arg()])
        .unwrap();
    // REX.W, opcode, ModRM direct: mod 11, reg rcx=1, rm rax=0
    assert_eq!(x.dump().unwrap().code, vec![0x48, 0x89, 0xC8]);
}

#[test]
fn mov_to_memory_uses_disp32_form() {
    let mut x = Assembler::new();
    x.encode(
        "mov",
        &mov_rm64_r64_table(),
        &vec![QWord::Rax.value_at_offset(16), QWord::Rcx.to_arg()],
    )
    .unwrap();
    // ModRM mod 10, reg rcx=1, rm rax=0, then the 32-bit displacement
    assert_eq!(x.dump().unwrap().code, vec![0x48, 0x89, 0x88, 0x10, 0x00, 0x00, 0x00]);
}

#[test]
fn mov_through_rsp_base_inserts_sib() {
    let mut x = Assembler::new();
    x.encode(
        "mov",
        &mov_rm64_r64_table(),
        &vec![QWord::Rsp.value_at_offset(8), QWord::Rcx.to_arg()],
    )
    .unwrap();
    assert_eq!(x.dump().unwrap().code, vec![0x48, 0x89, 0x8C, 0x24, 0x08, 0x00, 0x00, 0x00]);
}

#[test]
fn relative_jump_reserves_and_patches_displacement() {
    let table = vec![Opdata {
        ops: vec![0xE9],
        reg: 0,
        flags: 0,
        args: vec![OpShape::JumpRel(Size::DWORD)],
    }];
    let mut x = Assembler::new();
    let t = x.allocate_local();
    x.encode("jmp", &table, &vec![rip_nonrelative(t)]).unwrap();
    x.constant(&[0x90]);
    x.place_local(t);
    let of = x.dump().unwrap();
    // field ends at 5; the label lands at 6: displacement 1
    assert_eq!(of.code, vec![0xE9, 0x01, 0x00, 0x00, 0x00, 0x90]);
}

#[test]
fn lock_prefix_is_emitted_when_permitted() {
    let table = vec![Opdata {
        ops: vec![0x01],
        reg: 0,
        flags: x64data::AUTO_SIZE | x64data::LOCK,
        args: vec![OpShape::RegMem(Size::QWORD), OpShape::Reg(Size::QWORD)],
    }];
    let mut x = Assembler::new();
    let fx = x.with_prefixes(vec!["lock".to_string()]);
    fx.encode("add", &table, &vec![QWord::Rax.value_at(), QWord::Rcx.to_arg()]).unwrap();
    let of = x.dump().unwrap();
    assert_eq!(of.code[0], 0xF0);
}

#[test]
fn unknown_prefix_is_refused_and_named() {
    let table = cpuid_table();
    let mut x = Assembler::new();
    let fx = x.with_prefixes(vec!["fast".to_string()]);
    assert_eq!(
        fx.encode("cpuid", &table, &vec![]).unwrap_err(),
        EncodeError::InvalidPrefix("fast".to_string())
    );
}

fn vmovaps_table() -> Vec<Opdata> {
    // the first table byte of a VEX variant selects the opcode map
    vec![
        Opdata {
            ops: vec![1, 0x28],
            reg: 0,
            flags: x64data::VEX_OP | x64data::AUTO_VEXL,
            args: vec![OpShape::Reg(Size::OWORD), OpShape::RegMem(Size::OWORD)],
        },
        Opdata {
            ops: vec![1, 0x28],
            reg: 0,
            flags: x64data::VEX_OP | x64data::AUTO_VEXL,
            args: vec![OpShape::Reg(Size::HWORD), OpShape::RegMem(Size::HWORD)],
        },
    ]
}

#[test]
fn vex_variant_synthesizes_the_three_byte_prefix() {
    let mut x = Assembler::new();
    let xmm1 = Arg::Direct(Register { size: Size::OWORD, kind: RegKind::Static(RegId::XMM1) });
    let xmm2 = Arg::Direct(Register { size: Size::OWORD, kind: RegKind::Static(RegId::XMM2) });
    x.encode("vmovaps", &vmovaps_table(), &vec![xmm1, xmm2]).unwrap();
    // C4, then inverted R/X/B over map 1, then W/vvvv=1111/L=0/pp=0, opcode, ModRM
    assert_eq!(x.dump().unwrap().code, vec![0xC4, 0xE1, 0x78, 0x28, 0xCA]);
}

#[test]
fn vex_vector_length_bit_follows_the_operand_width() {
    let mut x = Assembler::new();
    let ymm1 = Arg::Direct(Register { size: Size::HWORD, kind: RegKind::Static(RegId::XMM1) });
    let ymm2 = Arg::Direct(Register { size: Size::HWORD, kind: RegKind::Static(RegId::XMM2) });
    x.encode("vmovaps", &vmovaps_table(), &vec![ymm1, ymm2]).unwrap();
    // the 256-bit form sets VEX.L
    assert_eq!(x.dump().unwrap().code, vec![0xC4, 0xE1, 0x7C, 0x28, 0xCA]);
}

#[test]
fn vex_extension_bits_are_inverted() {
    let mut x = Assembler::new();
    let xmm9 = Arg::Direct(Register { size: Size::OWORD, kind: RegKind::Static(RegId::XMM9) });
    let xmm10 = Arg::Direct(Register { size: Size::OWORD, kind: RegKind::Static(RegId::XMM10) });
    x.encode("vmovaps", &vmovaps_table(), &vec![xmm9, xmm10]).unwrap();
    // R and B extensions clear their inverted bits: 0xE1 - 0x80 - 0x20 = 0x41
    assert_eq!(x.dump().unwrap().code, vec![0xC4, 0x41, 0x78, 0x28, 0xCA]);
}

#[test]
fn xop_variant_uses_the_8f_escape() {
    let table = vec![Opdata {
        ops: vec![9, 0x01],
        reg: 1,
        flags: x64data::XOP_OP,
        args: vec![OpShape::RegMem(Size::OWORD)],
    }];
    let mut x = Assembler::new();
    let xmm3 = Arg::Direct(Register { size: Size::OWORD, kind: RegKind::Static(RegId::XMM3) });
    x.encode("blcfill", &table, &vec![xmm3]).unwrap();
    // 8F, inverted R/X/B over map 9, W/vvvv/L/pp, opcode, ModRM /1
    assert_eq!(x.dump().unwrap().code, vec![0x8F, 0xE9, 0x78, 0x01, 0xCB]);
}

#[test]
fn scaled_index_memory_operand_takes_the_sib_form() {
    let mut x = Assembler::new();
    let mem = Arg::Indirect(MemoryRef {
        index: Some(Register { size: Size::QWORD, kind: RegKind::Static(RegId::RCX) }),
        scale: 4,
        base: Some(Register { size: Size::QWORD, kind: RegKind::Static(RegId::RAX) }),
        disp: Some(ImmediateValue::I64(8)),
        size: None,
    });
    x.encode("mov", &mov_rm64_r64_table(), &vec![mem, QWord::Rdx.to_arg()]).unwrap();
    // REX.W, opcode, ModRM mod 10 rm 100, SIB scale 4 index rcx base rax, disp32
    assert_eq!(
        x.dump().unwrap().code,
        vec![0x48, 0x89, 0x94, 0x88, 0x08, 0x00, 0x00, 0x00]
    );
}

#[test]
fn extended_index_register_sets_rex_x() {
    let mut x = Assembler::new();
    let mem = Arg::Indirect(MemoryRef {
        index: Some(Register { size: Size::QWORD, kind: RegKind::Static(RegId::R9) }),
        scale: 2,
        base: Some(Register { size: Size::QWORD, kind: RegKind::Static(RegId::RAX) }),
        disp: None,
        size: None,
    });
    x.encode("mov", &mov_rm64_r64_table(), &vec![mem, QWord::Rdx.to_arg()]).unwrap();
    assert_eq!(
        x.dump().unwrap().code,
        vec![0x4A, 0x89, 0x94, 0x48, 0x00, 0x00, 0x00, 0x00]
    );
}

#[test]
fn index_without_base_addresses_absolutely() {
    let mut x = Assembler::new();
    let mem = Arg::Indirect(MemoryRef {
        index: Some(Register { size: Size::QWORD, kind: RegKind::Static(RegId::RCX) }),
        scale: 8,
        base: None,
        disp: Some(ImmediateValue::I64(0x10)),
        size: None,
    });
    x.encode("mov", &mov_rm64_r64_table(), &vec![mem, QWord::Rdx.to_arg()]).unwrap();
    // ModRM mod 00 rm 100, SIB base 101, disp32
    assert_eq!(
        x.dump().unwrap().code,
        vec![0x48, 0x89, 0x14, 0xCD, 0x10, 0x00, 0x00, 0x00]
    );
}

#[test]
fn invalid_scale_is_refused() {
    let mut x = Assembler::new();
    let mem = Arg::Indirect(MemoryRef {
        index: Some(Register { size: Size::QWORD, kind: RegKind::Static(RegId::RCX) }),
        scale: 3,
        base: Some(Register { size: Size::QWORD, kind: RegKind::Static(RegId::RAX) }),
        disp: None,
        size: None,
    });
    let r = x.encode("mov", &mov_rm64_r64_table(), &vec![mem, QWord::Rdx.to_arg()]);
    assert_eq!(r.unwrap_err(), EncodeError::UnsupportedOperand("mov".to_string()));
    assert!(x.inner.buffer.is_empty());
}

#[test]
fn stack_pointer_index_is_refused() {
    let mut x = Assembler::new();
    let mem = Arg::Indirect(MemoryRef {
        index: Some(Register { size: Size::QWORD, kind: RegKind::Static(RegId::RSP) }),
        scale: 2,
        base: Some(Register { size: Size::QWORD, kind: RegKind::Static(RegId::RAX) }),
        disp: None,
        size: None,
    });
    let r = x.encode("mov", &mov_rm64_r64_table(), &vec![mem, QWord::Rdx.to_arg()]);
    assert_eq!(r.unwrap_err(), EncodeError::UnsupportedOperand("mov".to_string()));
}

#[test]
fn collect_args_flattens_tuples_and_options() {
    let args = rasm::x64::assembler::collect_args((Byte::Al, Option::<i8>::None, 5i8));
    assert_eq!(args.len(), 2);
    match &args[0] {
        Arg::Direct(r) => {
            assert_eq!(r.size(), Size::BYTE);
            assert_eq!(r.kind.code(), Some(0));
        }
        _ => panic!("expected a register operand"),
    }
    match &args[1] {
        Arg::Immediate(ImmediateValue::I64(v), None) => assert_eq!(*v, 5),
        _ => panic!("expected an immediate operand"),
    }
}

#[test]
fn collect_args_accepts_single_values() {
    let mut one = Vec::new();
    42u64.collect_into(&mut one);
    assert_eq!(one.len(), 1);
    match &one[0] {
        Arg::Immediate(ImmediateValue::U64(v), None) => assert_eq!(*v, 42),
        _ => panic!("expected an unsigned immediate"),
    }
}

#[test]
fn register_model_codes_and_families() {
    assert_eq!(RegId::RAX.code(), 0);
    assert_eq!(RegId::R9.code(), 9);
    assert_eq!(RegId::XMM12.code(), 12);
    assert_eq!(RegId::RAX.family(), RegFamily::LEGACY);
    assert_eq!(RegId::RIP.family(), RegFamily::RIP);
    assert_eq!(RegId::AH.family(), RegFamily::HIGHBYTE);
    assert_eq!(RegId::XMM3.family(), RegFamily::XMM);
    assert_eq!(RegId::DR15.family(), RegFamily::DEBUG);
    assert_eq!(RegId::from_number(13), RegId::R13);
    let k = RegKind::from_number(9);
    assert!(k.is_extended());
    assert!(!RegKind::Static(RegId::RAX).is_extended());
    assert!(!RegKind::Static(RegId::AH).is_extended());
    assert!(!RegKind::Static(RegId::RAX).is_dynamic());
    assert_eq!(RegKind::Static(RegId::R10).encode(), 10);
}

#[test]
fn sizes_equal_their_byte_counts() {
    assert_eq!(Size::BYTE.in_bytes(), 1);
    assert_eq!(Size::WORD.in_bytes(), 2);
    assert_eq!(Size::DWORD.in_bytes(), 4);
    assert_eq!(Size::QWORD.in_bytes(), 8);
    assert_eq!(Size::PWORD.in_bytes(), 10);
    assert_eq!(Size::OWORD.in_bytes(), 16);
    assert_eq!(Size::HWORD.in_bytes(), 32);
}

#[test]
fn static_register_construction() {
    let r = Register::new_static(Size::DWORD, RegId::RSI);
    assert_eq!(r.size(), Size::DWORD);
    assert_eq!(r.kind.code(), Some(6));
}

#[test]
fn register_labels_convert_by_index() {
    assert_eq!(QWord::from_index(0), QWord::Rax);
    assert_eq!(QWord::from_index(9), QWord::R9);
    assert_eq!(Byte::from_index(3), Byte::Bl);
    let r = QWord::R11.to_register();
    assert_eq!(r.size, Size::QWORD);
    assert_eq!(r.kind.code(), Some(11));
}
