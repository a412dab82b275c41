use cranelift_codegen_meta::regs::{IsaRegsBuilder, RegsError};
use cranelift_codegen_meta::cpu_modes::{CpuMode, LegalizeError, TransformGroups, ValueType};
use cranelift_codegen_meta::isa::SharedDefinitions;
use cranelift_codegen_meta::{generate, isa_from_arch, x86, Isa};

#[test]
fn default_and_type_rules() {
    let mut groups = TransformGroups::new();
    let narrow = groups.intern("narrow");
    let expand = groups.intern("expand");
    assert_eq!(groups.intern("narrow"), narrow);
    assert_eq!(groups.by_name("expand"), Some(expand));
    assert_eq!(groups.by_name("widen"), None);
    let mut m = CpuMode::new("M");
    assert_eq!(m.get_legalize_code_for(ValueType::I64), None);
    m.legalize_default(narrow).unwrap();
    m.legalize_type(ValueType::I32, expand).unwrap();
    assert_eq!(m.get_legalize_code_for(ValueType::I64), Some(narrow));
    assert_eq!(m.get_legalize_code_for(ValueType::I32), Some(expand));
    assert_eq!(m.get_monomorphic(), None);
}

#[test]
fn rules_set_once() {
    let mut groups = TransformGroups::new();
    let g = groups.intern("g");
    let mut m = CpuMode::new("M");
    assert_eq!(m.legalize_monomorphic(g), Ok(()));
    assert_eq!(m.legalize_monomorphic(g), Err(LegalizeError::AlreadySet));
    assert_eq!(m.legalize_default(g), Ok(()));
    assert_eq!(m.legalize_default(g), Err(LegalizeError::AlreadySet));
    assert_eq!(m.legalize_type(ValueType::B1, g), Ok(()));
    assert_eq!(m.legalize_type(ValueType::B1, g), Err(LegalizeError::DuplicateKey));
    assert_eq!(m.get_monomorphic(), Some(g));
}

#[test]
fn arch_names() {
    assert_eq!(isa_from_arch("x86_64"), Ok(Isa::X86));
    assert_eq!(isa_from_arch("i686"), Ok(Isa::X86));
    assert_eq!(
        isa_from_arch("mips"),
        Err("no supported isa found for arch `mips`".to_string())
    );
}

#[test]
fn x86_target() {
    let mut shared = SharedDefinitions::new();
    let t = x86::define(&mut shared);
    assert_eq!(t.name, "x86");
    assert_eq!(t.settings.flags.len(), 9);
    assert_eq!(t.settings.predicates.len(), 5);
    assert_eq!(t.settings.presets.len(), 8);
    assert_eq!(t.settings.bit_count_exec(), 14);
    let icelake = &t.settings.presets[6];
    assert_eq!(icelake.name, "icelake");
    assert_eq!(icelake.mask, t.settings.presets[2].mask);
    assert_eq!(
        icelake.mask,
        vec![true, true, true, true, true, false, true, true, true, false, false, false, false, false]
    );
    assert_eq!(t.regs.banks.len(), 3);
    assert_eq!(t.regs.classes.len(), 6);
    assert_eq!(t.regs.classes[4].name, "ABCD");
    assert_eq!(t.regs.class_range(4), (0, 0, 4));
    assert_eq!(t.cpu_modes.len(), 2);
    let wide = &t.cpu_modes[0];
    let narrow = shared.transform_groups.by_name("narrow");
    let x86_expand = shared.transform_groups.by_name("x86_expand");
    assert_eq!(wide.get_legalize_code_for(ValueType::I64), x86_expand);
    assert_eq!(t.cpu_modes[1].get_legalize_code_for(ValueType::I64), narrow);
    assert_eq!(t.cpu_modes[1].get_legalize_code_for(ValueType::I128), narrow);
    let (all, groups) = generate(&vec![Isa::X86, Isa::X86]);
    assert_eq!(all.len(), 2);
    let widen = groups.transform_groups.by_name("widen");
    assert!(widen.is_some());
    assert_eq!(all[1].cpu_modes[0].get_legalize_code_for(ValueType::I8), widen);
    assert_eq!(all[0].cpu_modes[1].get_legalize_code_for(ValueType::I16), widen);
    assert_eq!(all[0].regs.banks[0].names.as_ref().unwrap()[15], "r15");
}

#[test]
fn x86_register_layout() {
    let mut shared = SharedDefinitions::new();
    let t = x86::define(&mut shared);
    let names: Vec<&str> = t.regs.classes.iter().map(|c| c.name.as_str()).collect();
    assert_eq!(names, vec!["GPR", "FPR", "FLAG", "GPR8", "ABCD", "FPR8"]);
    assert_eq!(t.regs.class_range(0), (0, 0, 16));
    assert_eq!(t.regs.class_range(3), (0, 0, 8));
    assert_eq!(t.regs.class_range(5), (1, 0, 8));
    assert_eq!(t.regs.parent(4), Some(3));
    assert_eq!(t.regs.parent(5), Some(1));
    assert_eq!(t.regs.toplevel_class(2), 2);
    assert_eq!(t.regs.banks[1].names, None);
    assert_eq!(t.regs.banks[2].names, Some(vec!["rflags".to_string()]));
    assert!(!t.regs.banks[2].track_pressure);
    let mut b = IsaRegsBuilder { banks: t.regs.banks.clone(), classes: t.regs.classes.clone() };
    assert_eq!(b.add_subclass("HIGH", 3, 4, 8), Err(RegsError::RangeOutOfBounds));
    assert_eq!(b.add_subclass("ABCD", 3, 0, 2), Err(RegsError::DuplicateName));
}

#[test]
fn x86_mode_rules() {
    let mut shared = SharedDefinitions::new();
    let t = x86::define(&mut shared);
    let g = |n: &str| shared.transform_groups.by_name(n);
    assert_eq!(t.cpu_modes[0].name, "I64");
    assert_eq!(t.cpu_modes[1].name, "I32");
    for m in &t.cpu_modes {
        assert_eq!(m.get_monomorphic(), g("expand_flags"));
        assert_eq!(m.default, g("narrow"));
        assert_eq!(m.get_legalize_code_for(ValueType::B1), g("expand_flags"));
        assert_eq!(m.get_legalize_code_for(ValueType::I32), g("x86_expand"));
        assert_eq!(m.get_legalize_code_for(ValueType::F64), g("x86_expand"));
        assert_eq!(m.get_legalize_code_for(ValueType::I128), g("narrow"));
    }
    assert_eq!(t.cpu_modes[0].get_legalize_code_for(ValueType::I64), g("x86_expand"));
    assert_eq!(t.cpu_modes[1].get_legalize_code_for(ValueType::I64), g("narrow"));
    assert_eq!(shared.transform_groups.names.len(), 5);
}
