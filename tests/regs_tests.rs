use cranelift_codegen_meta::regs::{IsaRegsBuilder, RegsError};

#[test]
fn subclass_ranges() {
    let mut b = IsaRegsBuilder::new();
    let int_regs = b.add_bank("IntRegs", 16, None, true).unwrap();
    let gpr = b.add_toplevel_class("GPR", int_regs).unwrap();
    let gpr8 = b.add_subclass("GPR8", gpr, 0, 8).unwrap();
    let abcd = b.add_subclass("ABCD", gpr8, 0, 4).unwrap();
    assert_eq!(b.add_subclass("BAD", gpr8, 4, 8), Err(RegsError::RangeOutOfBounds));
    let regs = b.finish().unwrap();
    assert_eq!(regs.class_range(abcd), (int_regs, 0, 4));
    assert_eq!(regs.class_range(gpr), (int_regs, 0, 16));
    assert_eq!(regs.parent(abcd), Some(gpr8));
    assert_eq!(regs.parent(gpr8), Some(gpr));
    assert_eq!(regs.parent(gpr), None);
    assert_eq!(regs.toplevel_class(int_regs), gpr);
}

#[test]
fn subclass_below_parent_start() {
    let mut b = IsaRegsBuilder::new();
    let bank = b.add_bank("B", 16, None, false).unwrap();
    let top = b.add_toplevel_class("T", bank).unwrap();
    let hi = b.add_subclass("HI", top, 8, 8).unwrap();
    assert_eq!(b.add_subclass("X", hi, 7, 1), Err(RegsError::RangeOutOfBounds));
    assert_eq!(b.add_subclass("X", hi, 8, 9), Err(RegsError::RangeOutOfBounds));
    assert_eq!(b.add_subclass("HI", hi, 8, 2), Err(RegsError::DuplicateName));
    // a range error wins over a name clash
    assert_eq!(b.add_subclass("HI", hi, 0, 2), Err(RegsError::RangeOutOfBounds));
    assert_eq!(b.add_subclass("Y", hi, 15, 1), Ok(2));
    assert_eq!(b.add_subclass("Z", 9, 0, 1), Err(RegsError::UndeclaredReference));
}

#[test]
fn bank_names_must_match_units() {
    let mut b = IsaRegsBuilder::new();
    let names = vec!["a".to_string(), "b".to_string()];
    assert_eq!(b.add_bank("B", 3, Some(names.clone()), true), Err(RegsError::LengthMismatch));
    assert_eq!(b.add_bank("B", 2, Some(names), true), Ok(0));
    assert_eq!(b.add_toplevel_class("T", 1), Err(RegsError::UndeclaredReference));
}

#[test]
fn every_bank_needs_one_toplevel() {
    let mut b = IsaRegsBuilder::new();
    let b0 = b.add_bank("A", 4, None, true).unwrap();
    b.add_bank("B", 4, None, true).unwrap();
    b.add_toplevel_class("TA", b0).unwrap();
    assert_eq!(b.finish().err(), Some(RegsError::TopLevelMismatch));

    let mut b = IsaRegsBuilder::new();
    let b0 = b.add_bank("A", 4, None, true).unwrap();
    b.add_toplevel_class("T1", b0).unwrap();
    b.add_toplevel_class("T2", b0).unwrap();
    assert_eq!(b.finish().err(), Some(RegsError::TopLevelMismatch));
}
