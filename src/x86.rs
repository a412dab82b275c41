//! The x86 target: its feature settings, register file and legalization modes.
use vstd::prelude::*;
use crate::cpu_modes::{CpuMode, TransformGroups, ValueType};
use crate::isa::{SharedDefinitions, TargetIsa};
use crate::regs::{IsaRegs, IsaRegsBuilder, RegBank, RegClass};
use crate::settings::{SettingGroup, SettingGroupBuilder, SettingRef};

verus! {

/// A few characters of a name; the names declared here differ in it, which
/// is how their distinctness is shown.
spec fn tag(s: Seq<char>) -> (int, char, char, char) {
    (s.len() as int, s[0], s[4], s[s.len() - 1])
}

/// The x86 flags, in declaration order.
pub open spec fn x86_flag_names() -> Seq<Seq<char>> {
    seq![
        "has_sse3"@,
        "has_ssse3"@,
        "has_sse41"@,
        "has_sse42"@,
        "has_popcnt"@,
        "has_avx"@,
        "has_bmi1"@,
        "has_bmi2"@,
        "has_lzcnt"@,
    ]
}

/// The doc strings of the x86 flags, in declaration order.
pub open spec fn x86_flag_docs() -> Seq<Seq<char>> {
    seq![
        "SSE3: CPUID.01H:ECX.SSE3[bit 0]"@,
        "SSSE3: CPUID.01H:ECX.SSSE3[bit 9]"@,
        "SSE4.1: CPUID.01H:ECX.SSE4_1[bit 19]"@,
        "SSE4.2: CPUID.01H:ECX.SSE4_2[bit 20]"@,
        "POPCNT: CPUID.01H:ECX.POPCNT[bit 23]"@,
        "AVX: CPUID.01H:ECX.AVX[bit 28]"@,
        "BMI1: CPUID.(EAX=07H, ECX=0H):EBX.BMI1[bit 3]"@,
        "BMI2: CPUID.(EAX=07H, ECX=0H):EBX.BMI2[bit 8]"@,
        "LZCNT: CPUID.EAX=80000001H:ECX.LZCNT[bit 5]"@,
    ]
}

/// The x86 predicates, in declaration order.
pub open spec fn x86_predicate_names() -> Seq<Seq<char>> {
    seq!["use_sse41"@, "use_sse42"@, "use_popcnt"@, "use_bmi1"@, "use_lznct"@]
}

/// The terms of each x86 predicate, as flag indices.
pub open spec fn x86_predicate_terms() -> Seq<Seq<SettingRef>> {
    seq![
        seq![SettingRef::Flag(2)],
        seq![SettingRef::Flag(2), SettingRef::Flag(3)],
        seq![SettingRef::Flag(4), SettingRef::Flag(3)],
        seq![SettingRef::Flag(6)],
        seq![SettingRef::Flag(8)],
    ]
}

/// The x86 presets, in declaration order.
pub open spec fn x86_preset_names() -> Seq<Seq<char>> {
    seq![
        "baseline"@,
        "nehalem"@,
        "haswell"@,
        "broadwell"@,
        "skylake"@,
        "cannonlake"@,
        "icelake"@,
        "znver1"@,
    ]
}

/// The flags each x86 preset names itself.
pub open spec fn x86_preset_implied() -> Seq<Seq<SettingRef>> {
    seq![
        seq![],
        seq![
            SettingRef::Flag(0),
            SettingRef::Flag(1),
            SettingRef::Flag(2),
            SettingRef::Flag(3),
            SettingRef::Flag(4),
        ],
        seq![SettingRef::Flag(6), SettingRef::Flag(7), SettingRef::Flag(8)],
        seq![],
        seq![],
        seq![],
        seq![],
        seq![
            SettingRef::Flag(0),
            SettingRef::Flag(1),
            SettingRef::Flag(2),
            SettingRef::Flag(3),
            SettingRef::Flag(4),
            SettingRef::Flag(6),
            SettingRef::Flag(7),
            SettingRef::Flag(8),
        ],
    ]
}

/// The presets each x86 preset extends.
pub open spec fn x86_preset_extends() -> Seq<Seq<usize>> {
    seq![seq![], seq![], seq![1usize], seq![2usize], seq![3usize], seq![4usize], seq![5usize], seq![]]
}

/// `r` is the x86 setting group: nine flags, all off by default, five
/// predicates and eight presets.
pub open spec fn is_x86_settings(r: SettingGroup) -> bool {
        &&& r.wf()
        &&& r.name@ == "x86"@
        &&& r.flags@.len() == 9
        &&& forall|i: int|
            0 <= i < 9 ==> crate::settings::flag_is(
                #[trigger] r.flags@[i],
                x86_flag_names()[i],
                x86_flag_docs()[i],
                false,
            )
        &&& r.predicates@.len() == 5
        &&& forall|j: int|
            0 <= j < 5 ==> (#[trigger] r.predicates@[j]).name@ == x86_predicate_names()[j]
                && r.predicates@[j].terms@ == x86_predicate_terms()[j]
        &&& r.presets@.len() == 8
        &&& forall|p: int|
            0 <= p < 8 ==> (#[trigger] r.presets@[p]).name@ == x86_preset_names()[p]
                && r.presets@[p].implied@ == x86_preset_implied()[p]
                && r.presets@[p].extends@ == x86_preset_extends()[p]
}

/// Declares the x86 flags, predicates and presets.
fn define_settings() -> (r: SettingGroup)
    ensures
        is_x86_settings(r),
{
    proof {
        reveal_strlit("has_sse3");
        reveal_strlit("has_ssse3");
        reveal_strlit("has_sse41");
        reveal_strlit("has_sse42");
        reveal_strlit("has_popcnt");
        reveal_strlit("has_avx");
        reveal_strlit("has_bmi1");
        reveal_strlit("has_bmi2");
        reveal_strlit("has_lzcnt");
        reveal_strlit("use_sse41");
        reveal_strlit("use_sse42");
        reveal_strlit("use_popcnt");
        reveal_strlit("use_bmi1");
        reveal_strlit("use_lznct");
        reveal_strlit("baseline");
        reveal_strlit("nehalem");
        reveal_strlit("haswell");
        reveal_strlit("broadwell");
        reveal_strlit("skylake");
        reveal_strlit("cannonlake");
        reveal_strlit("icelake");
        reveal_strlit("znver1");
        assert(tag("has_sse3"@) == (8int, 'h', 's', '3'));
        assert(tag("has_ssse3"@) == (9int, 'h', 's', '3'));
        assert(tag("has_sse41"@) == (9int, 'h', 's', '1'));
        assert(tag("has_sse42"@) == (9int, 'h', 's', '2'));
        assert(tag("has_popcnt"@) == (10int, 'h', 'p', 't'));
        assert(tag("has_avx"@) == (7int, 'h', 'a', 'x'));
        assert(tag("has_bmi1"@) == (8int, 'h', 'b', '1'));
        assert(tag("has_bmi2"@) == (8int, 'h', 'b', '2'));
        assert(tag("has_lzcnt"@) == (9int, 'h', 'l', 't'));
        assert(tag("use_sse41"@) == (9int, 'u', 's', '1'));
        assert(tag("use_sse42"@) == (9int, 'u', 's', '2'));
        assert(tag("use_popcnt"@) == (10int, 'u', 'p', 't'));
        assert(tag("use_bmi1"@) == (8int, 'u', 'b', '1'));
        assert(tag("use_lznct"@) == (9int, 'u', 'l', 't'));
        assert(tag("baseline"@) == (8int, 'b', 'l', 'e'));
        assert(tag("nehalem"@) == (7int, 'n', 'l', 'm'));
        assert(tag("haswell"@) == (7int, 'h', 'e', 'l'));
        assert(tag("broadwell"@) == (9int, 'b', 'd', 'l'));
        assert(tag("skylake"@) == (7int, 's', 'a', 'e'));
        assert(tag("cannonlake"@) == (10int, 'c', 'o', 'e'));
        assert(tag("icelake"@) == (7int, 'i', 'a', 'e'));
        assert(tag("znver1"@) == (6int, 'z', 'r', '1'));
    }
    let mut settings = SettingGroupBuilder::new("x86");

    // CPUID.01H:ECX
    let has_sse3 = settings.add_bool("has_sse3", "SSE3: CPUID.01H:ECX.SSE3[bit 0]", false).unwrap();
    let has_ssse3 = settings.add_bool("has_ssse3", "SSSE3: CPUID.01H:ECX.SSSE3[bit 9]", false).unwrap();
    let has_sse41 = settings.add_bool("has_sse41", "SSE4.1: CPUID.01H:ECX.SSE4_1[bit 19]", false).unwrap();
    let has_sse42 = settings.add_bool("has_sse42", "SSE4.2: CPUID.01H:ECX.SSE4_2[bit 20]", false).unwrap();
    let has_popcnt = settings.add_bool("has_popcnt", "POPCNT: CPUID.01H:ECX.POPCNT[bit 23]", false).unwrap();
    settings.add_bool("has_avx", "AVX: CPUID.01H:ECX.AVX[bit 28]", false).unwrap();

    // CPUID.(EAX=07H, ECX=0H):EBX
    let has_bmi1 = settings.add_bool("has_bmi1", "BMI1: CPUID.(EAX=07H, ECX=0H):EBX.BMI1[bit 3]", false).unwrap();
    let has_bmi2 = settings.add_bool("has_bmi2", "BMI2: CPUID.(EAX=07H, ECX=0H):EBX.BMI2[bit 8]", false).unwrap();

    // CPUID.EAX=80000001H:ECX
    let has_lzcnt = settings.add_bool("has_lzcnt", "LZCNT: CPUID.EAX=80000001H:ECX.LZCNT[bit 5]", false).unwrap();

    settings.add_predicate("use_sse41", vec![SettingRef::Flag(has_sse41)]).unwrap();
    settings.add_predicate("use_sse42", vec![SettingRef::Flag(has_sse41), SettingRef::Flag(has_sse42)]).unwrap();
    settings.add_predicate("use_popcnt", vec![SettingRef::Flag(has_popcnt), SettingRef::Flag(has_sse42)]).unwrap();
    settings.add_predicate("use_bmi1", vec![SettingRef::Flag(has_bmi1)]).unwrap();
    settings.add_predicate("use_lznct", vec![SettingRef::Flag(has_lzcnt)]).unwrap();

    settings.add_preset("baseline", vec![], vec![]).unwrap();
    let nehalem = settings.add_preset(
        "nehalem",
        vec![
            SettingRef::Flag(has_sse3),
            SettingRef::Flag(has_ssse3),
            SettingRef::Flag(has_sse41),
            SettingRef::Flag(has_sse42),
            SettingRef::Flag(has_popcnt),
        ],
        vec![],
    ).unwrap();
    let haswell = settings.add_preset(
        "haswell",
        vec![SettingRef::Flag(has_bmi1), SettingRef::Flag(has_bmi2), SettingRef::Flag(has_lzcnt)],
        vec![nehalem],
    ).unwrap();
    let broadwell = settings.add_preset("broadwell", vec![], vec![haswell]).unwrap();
    let skylake = settings.add_preset("skylake", vec![], vec![broadwell]).unwrap();
    let cannonlake = settings.add_preset("cannonlake", vec![], vec![skylake]).unwrap();
    settings.add_preset("icelake", vec![], vec![cannonlake]).unwrap();
    settings.add_preset(
        "znver1",
        vec![
            SettingRef::Flag(has_sse3),
            SettingRef::Flag(has_ssse3),
            SettingRef::Flag(has_sse41),
            SettingRef::Flag(has_sse42),
            SettingRef::Flag(has_popcnt),
            SettingRef::Flag(has_bmi1),
            SettingRef::Flag(has_bmi2),
            SettingRef::Flag(has_lzcnt),
        ],
        vec![],
    ).unwrap();

    let r = settings.finish();
    assert(r.flags@.len() == 9);
    assert(forall|i: int| 0 <= i < 9 ==> (#[trigger] r.flags@[i]).name@ == x86_flag_names()[i]);
    assert(forall|i: int| 0 <= i < 9 ==> (#[trigger] r.flags@[i]).doc@ == x86_flag_docs()[i]);
    assert(forall|i: int| 0 <= i < 9 ==> !(#[trigger] r.flags@[i]).default);
    assert(r.predicates@.len() == 5);
    assert(forall|j: int|
            0 <= j < 5 ==> (#[trigger] r.predicates@[j]).name@ == x86_predicate_names()[j]);
    assert(forall|j: int|
            0 <= j < 5 ==> (#[trigger] r.predicates@[j]).terms@ == x86_predicate_terms()[j]);
    assert(forall|p: int|
            0 <= p < 8 ==> (#[trigger] r.presets@[p]).name@ == x86_preset_names()[p]);
    assert(forall|p: int|
            0 <= p < 8 ==> (#[trigger] r.presets@[p]).implied@ == x86_preset_implied()[p]);
    assert(forall|p: int|
            0 <= p < 8 ==> (#[trigger] r.presets@[p]).extends@ == x86_preset_extends()[p]);
    r
}


/// The names of the x86 integer registers, by unit.
pub open spec fn x86_int_reg_names() -> Seq<Seq<char>> {
    seq![
        "rax"@, "rcx"@, "rdx"@, "rbx"@, "rsp"@, "rbp"@, "rsi"@, "rdi"@,
        "r8"@, "r9"@, "r10"@, "r11"@, "r12"@, "r13"@, "r14"@, "r15"@,
    ]
}

/// The views of a list of names.
pub open spec fn name_views(v: Seq<String>) -> Seq<Seq<char>> {
    v.map_values(|s: String| s@)
}

fn int_reg_names() -> (r: Vec<String>)
    ensures
        name_views(r@) == x86_int_reg_names(),
{
    let mut r: Vec<String> = Vec::new();
    r.push(String::from_str("rax"));
    r.push(String::from_str("rcx"));
    r.push(String::from_str("rdx"));
    r.push(String::from_str("rbx"));
    r.push(String::from_str("rsp"));
    r.push(String::from_str("rbp"));
    r.push(String::from_str("rsi"));
    r.push(String::from_str("rdi"));
    r.push(String::from_str("r8"));
    r.push(String::from_str("r9"));
    r.push(String::from_str("r10"));
    r.push(String::from_str("r11"));
    r.push(String::from_str("r12"));
    r.push(String::from_str("r13"));
    r.push(String::from_str("r14"));
    r.push(String::from_str("r15"));
    assert(name_views(r@) =~= x86_int_reg_names());
    r
}

pub open spec fn is_int_bank(b: RegBank) -> bool {
    &&& b.name@ == "IntRegs"@ && b.units == 16 && b.track_pressure
    &&& b.names is Some && name_views(b.names->Some_0@) == x86_int_reg_names()
}

pub open spec fn is_float_bank(b: RegBank) -> bool {
    b.name@ == "FloatRegs"@ && b.units == 16 && b.track_pressure && b.names is None
}

pub open spec fn is_flag_bank(b: RegBank) -> bool {
    &&& b.name@ == "FlagRegs"@ && b.units == 1 && !b.track_pressure
    &&& b.names is Some && name_views(b.names->Some_0@) == seq!["rflags"@]
}

/// The x86 banks: integer registers with names, float registers without,
/// and the flags register.
pub open spec fn is_x86_banks(banks: Seq<RegBank>) -> bool {
    &&& banks.len() == 3
    &&& is_int_bank(banks[0])
    &&& is_float_bank(banks[1])
    &&& is_flag_bank(banks[2])
}

/// The x86 register classes: name, bank, first unit, unit count, parent.
pub open spec fn x86_classes() -> Seq<(Seq<char>, usize, u32, u32, Option<usize>)> {
    seq![
        ("GPR"@, 0usize, 0u32, 16u32, None),
        ("FPR"@, 1usize, 0u32, 16u32, None),
        ("FLAG"@, 2usize, 0u32, 1u32, None),
        ("GPR8"@, 0usize, 0u32, 8u32, Some(0usize)),
        ("ABCD"@, 0usize, 0u32, 4u32, Some(3usize)),
        ("FPR8"@, 1usize, 0u32, 8u32, Some(1usize)),
    ]
}

pub open spec fn class_is(c: RegClass, e: (Seq<char>, usize, u32, u32, Option<usize>)) -> bool {
    c.name@ == e.0 && c.bank == e.1 && c.start == e.2 && c.count == e.3 && c.parent == e.4
}

/// The first `n` classes are the first `n` x86 classes.
pub open spec fn x86_classes_upto(classes: Seq<RegClass>, n: int) -> bool {
    &&& classes.len() == n
    &&& forall|i: int| 0 <= i < n ==> class_is(#[trigger] classes[i], x86_classes()[i])
}

/// `r` is the x86 register file: the banks of `is_x86_banks` and the
/// classes of `x86_classes`, in that order.
pub open spec fn is_x86_regs(r: IsaRegs) -> bool {
    &&& r.wf()
    &&& is_x86_banks(r.banks@)
    &&& x86_classes_upto(r.classes@, 6)
}

/// A few characters of a register class name, enough to tell the x86
/// classes apart.
spec fn class_tag(s: Seq<char>) -> (int, char, char) {
    (s.len() as int, s[0], s[s.len() - 1])
}

proof fn lemma_x86_class_names_distinct()
    ensures
        forall|i: int, j: int|
            0 <= i < 6 && 0 <= j < 6 && i != j ==> #[trigger] x86_classes()[i].0 != #[trigger] x86_classes()[j].0,
{
    reveal_strlit("GPR");
    reveal_strlit("FPR");
    reveal_strlit("FLAG");
    reveal_strlit("GPR8");
    reveal_strlit("ABCD");
    reveal_strlit("FPR8");
    let t = seq![
        (3int, 'G', 'R'),
        (3int, 'F', 'R'),
        (4int, 'F', 'G'),
        (4int, 'G', '8'),
        (4int, 'A', 'D'),
        (4int, 'F', '8'),
    ];
    assert(class_tag("GPR"@) == t[0]);
    assert(class_tag("FPR"@) == t[1]);
    assert(class_tag("FLAG"@) == t[2]);
    assert(class_tag("GPR8"@) == t[3]);
    assert(class_tag("ABCD"@) == t[4]);
    assert(class_tag("FPR8"@) == t[5]);
    assert forall|i: int| 0 <= i < 6 implies class_tag(#[trigger] x86_classes()[i].0) == t[i] by {
        if i == 0 {} else if i == 1 {} else if i == 2 {} else if i == 3 {} else if i == 4 {} else {}
    }
}

#[verifier::rlimit(60)]
fn add_int_bank(regs: &mut IsaRegsBuilder)
    requires
        old(regs).wf(),
        old(regs).banks@.len() == 0,
        old(regs).classes@.len() == 0,
    ensures
        final(regs).wf(),
        final(regs).banks@.len() == 1,
        is_int_bank(final(regs).banks@[0]),
        final(regs).classes@.len() == 0,
{
    let names = int_reg_names();
    assert(names@.len() == name_views(names@).len());
    regs.add_bank("IntRegs", 16, Some(names), true).unwrap();
}

fn add_float_bank(regs: &mut IsaRegsBuilder)
    requires
        old(regs).wf(),
        old(regs).banks@.len() == 1,
        is_int_bank(old(regs).banks@[0]),
        old(regs).classes@.len() == 0,
    ensures
        final(regs).wf(),
        final(regs).banks@.len() == 2,
        is_int_bank(final(regs).banks@[0]),
        is_float_bank(final(regs).banks@[1]),
        final(regs).classes@.len() == 0,
{
    regs.add_bank("FloatRegs", 16, None, true).unwrap();
    assert(regs.banks@[0] == regs.banks@.subrange(0, 1)[0]);
}

fn add_flag_bank(regs: &mut IsaRegsBuilder)
    requires
        old(regs).wf(),
        old(regs).banks@.len() == 2,
        is_int_bank(old(regs).banks@[0]),
        is_float_bank(old(regs).banks@[1]),
        old(regs).classes@.len() == 0,
    ensures
        final(regs).wf(),
        is_x86_banks(final(regs).banks@),
        final(regs).classes@.len() == 0,
{
    let mut names: Vec<String> = Vec::new();
    names.push(String::from_str("rflags"));
    assert(name_views(names@) =~= seq!["rflags"@]);
    regs.add_bank("FlagRegs", 1, Some(names), false).unwrap();
    assert(regs.banks@[0] == regs.banks@.subrange(0, 2)[0]);
    assert(regs.banks@[1] == regs.banks@.subrange(0, 2)[1]);
}

proof fn lemma_fresh_class_name(classes: Seq<RegClass>, k: int)
    requires
        0 <= k < 6,
        x86_classes_upto(classes, k),
    ensures
        forall|i: int| 0 <= i < classes.len() ==> (#[trigger] classes[i]).name@ != x86_classes()[k].0,
{
    lemma_x86_class_names_distinct();
    assert forall|i: int| 0 <= i < classes.len() implies (#[trigger] classes[i]).name@
        != x86_classes()[k].0 by {
        assert(class_is(classes[i], x86_classes()[i]));
    }
}

proof fn lemma_upto_push(old_c: Seq<RegClass>, c: Seq<RegClass>, k: int)
    requires
        0 <= k < 6,
        x86_classes_upto(old_c, k),
        c.len() == k + 1,
        c.subrange(0, k) == old_c,
        class_is(c[k], x86_classes()[k]),
    ensures
        x86_classes_upto(c, k + 1),
{
    assert forall|i: int| 0 <= i < k + 1 implies class_is(#[trigger] c[i], x86_classes()[i]) by {
        if i < k {
            assert(c[i] == c.subrange(0, k)[i]);
        }
    }
}

/// Declares the `k`th x86 class, a top-level one.
fn x86_toplevel_step(regs: &mut IsaRegsBuilder, k: usize, name: &str, bank: usize)
    requires
        old(regs).wf(),
        is_x86_banks(old(regs).banks@),
        k < 3,
        x86_classes_upto(old(regs).classes@, k as int),
        name@ == x86_classes()[k as int].0,
        bank == k,
    ensures
        final(regs).wf(),
        final(regs).banks == old(regs).banks,
        x86_classes_upto(final(regs).classes@, k + 1),
{
    proof {
        lemma_fresh_class_name(old(regs).classes@, k as int);
    }
    regs.add_toplevel_class(name, bank).unwrap();
    proof {
        lemma_upto_push(old(regs).classes@, regs.classes@, k as int);
    }
}

/// Declares the `k`th x86 class, a subclass.
fn x86_subclass_step(regs: &mut IsaRegsBuilder, k: usize, name: &str, parent: usize, count: u32)
    requires
        old(regs).wf(),
        is_x86_banks(old(regs).banks@),
        3 <= k < 6,
        x86_classes_upto(old(regs).classes@, k as int),
        name@ == x86_classes()[k as int].0,
        Some(parent) == x86_classes()[k as int].4,
        count == x86_classes()[k as int].3,
        x86_classes()[k as int].2 == 0,
        x86_classes()[k as int].1 == x86_classes()[parent as int].1,
        count <= x86_classes()[parent as int].3,
        x86_classes()[parent as int].2 == 0,
    ensures
        final(regs).wf(),
        final(regs).banks == old(regs).banks,
        x86_classes_upto(final(regs).classes@, k + 1),
{
    proof {
        lemma_fresh_class_name(old(regs).classes@, k as int);
        assert(class_is(old(regs).classes@[parent as int], x86_classes()[parent as int]));
    }
    regs.add_subclass(name, parent, 0, count).unwrap();
    proof {
        lemma_upto_push(old(regs).classes@, regs.classes@, k as int);
    }
}

proof fn lemma_x86_one_toplevel(classes: Seq<RegClass>)
    requires
        x86_classes_upto(classes, 6),
    ensures
        forall|b: int| 0 <= b < 3 ==> crate::regs::one_toplevel(classes, b),
{
    assert(class_is(classes[0], x86_classes()[0]));
    assert(class_is(classes[1], x86_classes()[1]));
    assert(class_is(classes[2], x86_classes()[2]));
    assert(class_is(classes[3], x86_classes()[3]));
    assert(class_is(classes[4], x86_classes()[4]));
    assert(class_is(classes[5], x86_classes()[5]));
    assert forall|b: int| 0 <= b < 3 implies crate::regs::one_toplevel(classes, b) by {
        assert(crate::regs::is_toplevel_of(classes, b, b));
        assert forall|c: int| #[trigger] crate::regs::is_toplevel_of(classes, c, b) implies c == b by {
            if c == 0 {} else if c == 1 {} else if c == 2 {} else if c == 3 {} else if c == 4 {} else {}
        }
    }
}

/// Declares the x86 register banks and classes.
fn define_registers() -> (r: IsaRegs)
    ensures
        is_x86_regs(r),
{
    let mut regs = IsaRegsBuilder::new();
    add_int_bank(&mut regs);
    add_float_bank(&mut regs);
    add_flag_bank(&mut regs);
    x86_toplevel_step(&mut regs, 0, "GPR", 0);
    x86_toplevel_step(&mut regs, 1, "FPR", 1);
    x86_toplevel_step(&mut regs, 2, "FLAG", 2);
    x86_subclass_step(&mut regs, 3, "GPR8", 0, 8);
    x86_subclass_step(&mut regs, 4, "ABCD", 3, 4);
    x86_subclass_step(&mut regs, 5, "FPR8", 1, 8);
    proof {
        lemma_x86_one_toplevel(regs.classes@);
    }
    let ghost b = regs.banks@;
    let ghost c = regs.classes@;
    let r = regs.finish().unwrap();
    assert(r.banks@ == b && r.classes@ == c);
    r
}

/// The legalization rules of one x86 mode, by group name: the `I64` type
/// has a rule of its own only in the 64-bit mode.
pub open spec fn x86_type_rules(wide: bool) -> Seq<(ValueType, Seq<char>)> {
    if wide {
        seq![
            (ValueType::B1, "expand_flags"@),
            (ValueType::I8, "widen"@),
            (ValueType::I16, "widen"@),
            (ValueType::I32, "x86_expand"@),
            (ValueType::I64, "x86_expand"@),
            (ValueType::F32, "x86_expand"@),
            (ValueType::F64, "x86_expand"@),
        ]
    } else {
        seq![
            (ValueType::B1, "expand_flags"@),
            (ValueType::I8, "widen"@),
            (ValueType::I16, "widen"@),
            (ValueType::I32, "x86_expand"@),
            (ValueType::F32, "x86_expand"@),
            (ValueType::F64, "x86_expand"@),
        ]
    }
}

/// `m` is an x86 mode whose group indices name groups of `groups`.
pub open spec fn is_x86_mode(m: CpuMode, groups: Seq<String>, wide: bool) -> bool {
    &&& m.wf()
    &&& m.name@ == (if wide { "I64"@ } else { "I32"@ })
    &&& m.monomorphic is Some && m.monomorphic->Some_0.0 < groups.len()
    &&& groups[m.monomorphic->Some_0.0 as int]@ == "expand_flags"@
    &&& m.default is Some && m.default->Some_0.0 < groups.len()
    &&& groups[m.default->Some_0.0 as int]@ == "narrow"@
    &&& m.typed@.len() == x86_type_rules(wide).len()
    &&& forall|i: int|
        0 <= i < m.typed@.len() ==> {
            &&& (#[trigger] m.typed@[i]).0 == x86_type_rules(wide)[i].0
            &&& m.typed@[i].1.0 < groups.len()
            &&& groups[m.typed@[i].1.0 as int]@ == x86_type_rules(wide)[i].1
        }
}

/// A mode's group indices keep naming the same groups while the registry
/// only grows.
pub proof fn lemma_x86_mode_kept(m: CpuMode, g: Seq<String>, h: Seq<String>, wide: bool)
    requires
        is_x86_mode(m, g, wide),
        g.len() <= h.len(),
        forall|k: int| 0 <= k < g.len() ==> h[k] == #[trigger] g[k],
    ensures
        is_x86_mode(m, h, wide),
{
    assert(h[m.monomorphic->Some_0.0 as int] == g[m.monomorphic->Some_0.0 as int]);
    assert(h[m.default->Some_0.0 as int] == g[m.default->Some_0.0 as int]);
    assert forall|i: int| 0 <= i < m.typed@.len() implies h[(#[trigger] m.typed@[i]).1.0 as int] == g[m.typed@[i].1.0 as int] by {
        assert(h[m.typed@[i].1.0 as int] == g[m.typed@[i].1.0 as int]);
    }
}

fn define_mode(
    name: &str,
    groups: &TransformGroups,
    wide: bool,
    expand_flags: crate::cpu_modes::TransformGroupIndex,
    narrow: crate::cpu_modes::TransformGroupIndex,
    widen: crate::cpu_modes::TransformGroupIndex,
    x86_expand: crate::cpu_modes::TransformGroupIndex,
) -> (r: CpuMode)
    requires
        name@ == (if wide { "I64"@ } else { "I32"@ }),
        expand_flags.0 < groups.names@.len() && groups.names@[expand_flags.0 as int]@ == "expand_flags"@,
        narrow.0 < groups.names@.len() && groups.names@[narrow.0 as int]@ == "narrow"@,
        widen.0 < groups.names@.len() && groups.names@[widen.0 as int]@ == "widen"@,
        x86_expand.0 < groups.names@.len() && groups.names@[x86_expand.0 as int]@ == "x86_expand"@,
    ensures
        is_x86_mode(r, groups.names@, wide),
{
    let mut mode = CpuMode::new(name);
    mode.legalize_monomorphic(expand_flags).unwrap();
    mode.legalize_default(narrow).unwrap();
    mode.legalize_type(ValueType::B1, expand_flags).unwrap();
    mode.legalize_type(ValueType::I8, widen).unwrap();
    mode.legalize_type(ValueType::I16, widen).unwrap();
    mode.legalize_type(ValueType::I32, x86_expand).unwrap();
    if wide {
        mode.legalize_type(ValueType::I64, x86_expand).unwrap();
    }
    mode.legalize_type(ValueType::F32, x86_expand).unwrap();
    mode.legalize_type(ValueType::F64, x86_expand).unwrap();
    mode
}

/// Defines the x86 target: its settings, registers, and the legalization
/// rules of its 64-bit and 32-bit modes, registering the transform groups
/// they use in `shared`.
pub fn define(shared_defs: &mut SharedDefinitions) -> (r: TargetIsa)
    requires
        old(shared_defs).wf(),
    ensures
        final(shared_defs).wf(),
        forall|k: int|
            0 <= k < old(shared_defs).transform_groups.names@.len() ==> final(shared_defs).transform_groups.names@[k] == #[trigger] old(shared_defs).transform_groups.names@[k],
        old(shared_defs).transform_groups.names@.len() <= final(shared_defs).transform_groups.names@.len(),
        final(shared_defs).transform_groups.has("x86_expand"@),
        r.name@ == "x86"@,
        is_x86_settings(r.settings),
        is_x86_regs(r.regs),
        r.cpu_modes@.len() == 2,
        is_x86_mode(r.cpu_modes@[0], final(shared_defs).transform_groups.names@, true),
        is_x86_mode(r.cpu_modes@[1], final(shared_defs).transform_groups.names@, false),
{
    let settings = define_settings();
    let regs = define_registers();

    let expand_flags = shared_defs.transform_groups.intern("expand_flags");
    let narrow = shared_defs.transform_groups.intern("narrow");
    let widen = shared_defs.transform_groups.intern("widen");
    let x86_expand = shared_defs.transform_groups.intern("x86_expand");

    proof {
        reveal_strlit("I64");
        reveal_strlit("I32");
    }
    let x86_64 = define_mode("I64", &shared_defs.transform_groups, true, expand_flags, narrow, widen, x86_expand);
    let x86_32 = define_mode("I32", &shared_defs.transform_groups, false, expand_flags, narrow, widen, x86_expand);

    let cpu_modes = vec![x86_64, x86_32];

    let r = TargetIsa::new("x86", settings, regs, cpu_modes);
    assert(shared_defs.transform_groups.names@[x86_expand.0 as int]@ == "x86_expand"@);
    r
}

} // verus!
