use cranelift_codegen_meta::settings::{SettingGroupBuilder, SettingRef, SettingsError};

#[test]
fn predicate_true_after_preset() {
    let mut b = SettingGroupBuilder::new("t");
    let sse41 = b.add_bool("sse41", "", false).unwrap();
    let sse42 = b.add_bool("sse42", "", false).unwrap();
    let use_sse42 = b
        .add_predicate("use_sse42", vec![SettingRef::Flag(sse41), SettingRef::Flag(sse42)])
        .unwrap();
    let nehalem = b
        .add_preset("nehalem", vec![SettingRef::Flag(sse41), SettingRef::Flag(sse42)], vec![])
        .unwrap();
    let g = b.finish();
    let defaults = g.default_values();
    let before = g.evaluate(&defaults);
    assert!(!before[g.bit_index(SettingRef::Predicate(use_sse42))]);
    let applied = g.apply_preset(nehalem, &defaults);
    assert_eq!(applied, vec![true, true]);
    let bits = g.evaluate(&applied);
    assert!(bits[g.bit_index(SettingRef::Predicate(use_sse42))]);
}

#[test]
fn bits_flags_then_predicates() {
    let mut b = SettingGroupBuilder::new("t");
    let a = b.add_bool("a", "", true).unwrap();
    let p = b.add_predicate("p", vec![SettingRef::Flag(a)]).unwrap();
    let c = b.add_bool("c", "", false).unwrap();
    let q = b.add_predicate("q", vec![SettingRef::Predicate(p), SettingRef::Flag(c)]).unwrap();
    let g = b.finish();
    assert_eq!(g.bit_count_exec(), 4);
    assert_eq!(g.bit_index(SettingRef::Flag(a)), 0);
    assert_eq!(g.bit_index(SettingRef::Flag(c)), 1);
    assert_eq!(g.bit_index(SettingRef::Predicate(p)), 2);
    assert_eq!(g.bit_index(SettingRef::Predicate(q)), 3);
    assert_eq!(g.evaluate(&vec![true, false]), vec![true, false, true, false]);
    assert_eq!(g.evaluate(&vec![true, true]), vec![true, true, true, true]);
}

#[test]
fn duplicate_names_across_kinds() {
    let mut b = SettingGroupBuilder::new("t");
    let a = b.add_bool("a", "", false).unwrap();
    assert_eq!(b.add_bool("a", "", true), Err(SettingsError::DuplicateName));
    assert_eq!(b.add_predicate("a", vec![SettingRef::Flag(a)]), Err(SettingsError::DuplicateName));
    // the name check comes before the reference check
    assert_eq!(b.add_predicate("a", vec![SettingRef::Flag(9)]), Err(SettingsError::DuplicateName));
    b.add_preset("p", vec![], vec![]).unwrap();
    assert_eq!(b.add_bool("p", "", false), Err(SettingsError::DuplicateName));
    assert_eq!(b.add_preset("p", vec![], vec![]), Err(SettingsError::DuplicateName));
}

#[test]
fn undeclared_references() {
    let mut b = SettingGroupBuilder::new("t");
    let a = b.add_bool("a", "", false).unwrap();
    assert_eq!(b.add_predicate("p", vec![SettingRef::Flag(a + 1)]), Err(SettingsError::UndeclaredReference));
    assert_eq!(b.add_predicate("p", vec![SettingRef::Predicate(0)]), Err(SettingsError::UndeclaredReference));
    assert_eq!(b.add_preset("s", vec![SettingRef::Flag(3)], vec![]), Err(SettingsError::UndeclaredReference));
    assert_eq!(b.add_preset("s", vec![], vec![0]), Err(SettingsError::UndeclaredReference));
    assert_eq!(b.flags.len(), 1);
    assert!(b.predicates.is_empty());
    assert!(b.presets.is_empty());
}

#[test]
fn preset_mask_is_union_of_extends() {
    let mut b = SettingGroupBuilder::new("t");
    let x = b.add_bool("x", "", false).unwrap();
    let y = b.add_bool("y", "", false).unwrap();
    let z = b.add_bool("z", "", false).unwrap();
    let p = b.add_predicate("p", vec![SettingRef::Flag(x)]).unwrap();
    let base = b.add_preset("base", vec![SettingRef::Flag(x)], vec![]).unwrap();
    let mid = b.add_preset("mid", vec![SettingRef::Flag(y)], vec![base]).unwrap();
    let top = b.add_preset("top", vec![SettingRef::Predicate(p)], vec![mid]).unwrap();
    let twice = b.add_preset("twice", vec![SettingRef::Flag(y)], vec![base, base]).unwrap();
    let _ = z;
    let g = b.finish();
    assert_eq!(g.presets[base].mask, vec![true, false, false, false]);
    assert_eq!(g.presets[mid].mask, vec![true, true, false, false]);
    assert_eq!(g.presets[top].mask, vec![true, true, false, true]);
    assert_eq!(g.presets[twice].mask, g.presets[mid].mask);
    assert_eq!(g.apply_preset(top, &vec![false, false, true]), vec![true, true, true]);
}
