use rasm::x64::assembler::AsmError;
use rasm::x64::assembler::Assembler;
use rasm::x64::assembler::Stmt;
use rasm::x64::parser::ImmediateValue;
use rasm::x64::parser::Size;

#[test]
fn it_works() {
}

#[test]
fn const_var_log_materializes_concatenated_encodings() {
    let mut unit = Assembler::new();
    unit.constant(&[0x01, 0x02]);
    unit.inner.buffer.push(Stmt::Var(ImmediateValue::I64(-1), Size::BYTE));
    unit.inner.buffer.push(Stmt::Var(ImmediateValue::I64(0x01020304), Size::DWORD));
    unit.inner.buffer.push(Stmt::Var(ImmediateValue::U64(0x1122334455667788), Size::QWORD));
    let of = unit.dump().unwrap();
    assert_eq!(of.code.len(), 2 + 1 + 4 + 8);
    assert_eq!(
        of.code,
        vec![
            0x01, 0x02, 0xFF, 0x04, 0x03, 0x02, 0x01, 0x88, 0x77, 0x66, 0x55, 0x44, 0x33, 0x22,
            0x11
        ]
    );
    assert!(of.functions.is_empty());
}

#[test]
fn negative_dword_var_is_twos_complement() {
    let mut unit = Assembler::new();
    unit.inner.buffer.push(Stmt::Var(ImmediateValue::I64(-2), Size::DWORD));
    let of = unit.dump().unwrap();
    assert_eq!(of.code, vec![0xFE, 0xFF, 0xFF, 0xFF]);
}

#[test]
fn forward_jump_is_patched_with_signed_displacement() {
    let mut unit = Assembler::new();
    let t = unit.allocate_local();
    unit.constant(&[0xAA, 0xBB]);
    // a 4-byte placeholder, then the marker that its field ends here
    unit.inner.buffer.push(Stmt::Var(ImmediateValue::I64(0), Size::DWORD));
    unit.inner.buffer.push(Stmt::ForwardJumpTarget(t, Size::DWORD));
    unit.constant(&[0xCC]);
    unit.place_local(t);
    let of = unit.dump().unwrap();
    // placeholder field is [2, 6); the label sits at offset 7, so 7 - 6 = 1
    assert_eq!(of.code, vec![0xAA, 0xBB, 0x01, 0x00, 0x00, 0x00, 0xCC]);
}

#[test]
fn backward_jump_gets_negative_displacement() {
    let mut unit = Assembler::new();
    let t = unit.local();
    unit.constant(&[0x90, 0x90]);
    unit.inner.buffer.push(Stmt::Var(ImmediateValue::I64(0), Size::DWORD));
    unit.inner.buffer.push(Stmt::ForwardJumpTarget(t, Size::DWORD));
    let of = unit.dump().unwrap();
    // label at 0, field ends at 6: displacement -6
    assert_eq!(of.code, vec![0x90, 0x90, 0xFA, 0xFF, 0xFF, 0xFF]);
}

#[test]
fn unplaced_target_fails_resolution() {
    let mut unit = Assembler::new();
    let t = unit.allocate_local();
    unit.inner.buffer.push(Stmt::Var(ImmediateValue::I64(0), Size::DWORD));
    unit.inner.buffer.push(Stmt::ForwardJumpTarget(t, Size::DWORD));
    assert_eq!(unit.dump().unwrap_err(), AsmError::UnresolvedAddress(t));
}

#[test]
fn non_dword_jump_size_is_unimplemented() {
    let mut unit = Assembler::new();
    let t = unit.local();
    unit.constant(&[0, 0, 0, 0]);
    unit.inner.buffer.push(Stmt::ForwardJumpTarget(t, Size::BYTE));
    assert_eq!(unit.dump().unwrap_err(), AsmError::UnimplementedJumpSize(t, Size::BYTE));
}

#[test]
fn patch_field_before_buffer_start_fails() {
    let mut unit = Assembler::new();
    let t = unit.local();
    unit.inner.buffer.push(Stmt::ForwardJumpTarget(t, Size::DWORD));
    assert_eq!(unit.dump().unwrap_err(), AsmError::PatchBeforeStart(t));
}

#[test]
fn unsupported_var_combination_is_unimplemented() {
    let mut unit = Assembler::new();
    unit.inner.buffer.push(Stmt::Var(ImmediateValue::U64(5), Size::BYTE));
    assert_eq!(
        unit.dump().unwrap_err(),
        AsmError::UnimplementedStatement(ImmediateValue::U64(5), Some(Size::BYTE))
    );
}

#[test]
fn signed_alignment_payload_is_unimplemented() {
    let mut unit = Assembler::new();
    unit.inner.buffer.push(Stmt::Align(ImmediateValue::I64(8)));
    assert_eq!(
        unit.dump().unwrap_err(),
        AsmError::UnimplementedStatement(ImmediateValue::I64(8), None)
    );
}

#[test]
fn alignment_pads_with_nops_to_each_boundary() {
    for k in [1u64, 2, 4, 8, 16] {
        let mut unit = Assembler::new();
        unit.constant(&[0xAA, 0xBB, 0xCC]);
        unit.align(k);
        let of = unit.dump().unwrap();
        assert_eq!(of.code.len() as u64 % k, 0);
        assert!((of.code.len() as u64) < 3 + k || k == 1);
        for b in &of.code[3..] {
            assert_eq!(*b, 0x90);
        }
    }
}

#[test]
fn alignment_of_already_aligned_buffer_adds_nothing() {
    let mut unit = Assembler::new();
    unit.constant(&[1, 2, 3, 4]);
    unit.align(4);
    assert_eq!(unit.dump().unwrap().code.len(), 4);
}

#[test]
fn excessive_alignment_fails() {
    let mut unit = Assembler::new();
    unit.align(2000);
    assert_eq!(unit.dump().unwrap_err(), AsmError::AlignmentOutOfRange(2000));
}

#[test]
fn zero_alignment_fails() {
    let mut unit = Assembler::new();
    unit.align(0);
    assert_eq!(unit.dump().unwrap_err(), AsmError::AlignmentOutOfRange(0));
}

#[test]
fn global_labels_export_current_offsets() {
    let mut unit = Assembler::new();
    unit.global("first");
    unit.constant(&[1, 2, 3]);
    unit.global("second");
    let of = unit.dump().unwrap();
    assert_eq!(of.functions.len(), 2);
    assert_eq!(of.functions[0].name, "first");
    assert_eq!(of.functions[0].offset, 0);
    assert_eq!(of.functions[1].name, "second");
    assert_eq!(of.functions[1].offset, 3);
}

#[test]
fn ten_thousand_label_allocations_never_repeat() {
    let mut unit = Assembler::new();
    let mut seen: Vec<u64> = Vec::new();
    for _ in 0..10_000 {
        seen.push(unit.allocate_local());
    }
    let mut sorted = seen.clone();
    sorted.sort();
    for w in sorted.windows(2) {
        assert_ne!(w[0], w[1]);
    }
}

#[test]
fn first_allocation_uses_the_seed() {
    let mut unit = Assembler::new();
    assert_eq!(unit.allocate_local(), 5050);
}

#[test]
fn new_object_is_x64() {
    let arch = rasm::new("anything");
    match arch {
        rasm::Arch::X64(unit) => {
            assert!(unit.inner.buffer.is_empty());
        }
    }
}
