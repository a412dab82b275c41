//! A compiled target description, and the definitions shared by all targets.
use vstd::prelude::*;
use crate::cpu_modes::{CpuMode, TransformGroups};
use crate::regs::IsaRegs;
use crate::settings::SettingGroup;

verus! {

/// Definitions shared by every target: the registry of transform groups.
#[derive(Clone, Debug)]
pub struct SharedDefinitions {
    pub transform_groups: TransformGroups,
}

impl SharedDefinitions {
    pub open spec fn wf(&self) -> bool {
        self.transform_groups.wf()
    }

    /// The shared definitions with the target-independent transform groups.
    pub fn new() -> (r: SharedDefinitions)
        ensures
            r.wf(),
            r.transform_groups.names@.len() == 4,
            r.transform_groups.names@[0]@ == "expand_flags"@,
            r.transform_groups.names@[1]@ == "expand"@,
            r.transform_groups.names@[2]@ == "narrow"@,
            r.transform_groups.names@[3]@ == "widen"@,
    {
        proof {
            reveal_strlit("expand_flags");
            reveal_strlit("expand");
            reveal_strlit("narrow");
            reveal_strlit("widen");
            assert("expand_flags"@.len() != "expand"@.len());
            assert("expand_flags"@.len() != "narrow"@.len());
            assert("expand_flags"@.len() != "widen"@.len());
            assert("expand"@[0] != "narrow"@[0]);
            assert("expand"@[0] != "widen"@[0]);
            assert("narrow"@[0] != "widen"@[0]);
        }
        let mut names: Vec<String> = Vec::new();
        names.push(String::from_str("expand_flags"));
        names.push(String::from_str("expand"));
        names.push(String::from_str("narrow"));
        names.push(String::from_str("widen"));
        let transform_groups = TransformGroups { names };
        assert(transform_groups.wf());
        SharedDefinitions { transform_groups }
    }
}

/// A compiled target: its settings, register layout and CPU modes.
#[derive(Clone, Debug)]
pub struct TargetIsa {
    pub name: String,
    pub settings: SettingGroup,
    pub regs: IsaRegs,
    pub cpu_modes: Vec<CpuMode>,
}

impl TargetIsa {
    pub fn new(name: &str, settings: SettingGroup, regs: IsaRegs, cpu_modes: Vec<CpuMode>) -> (r:
        TargetIsa)
        ensures
            r.name@ == name@,
            r.settings == settings,
            r.regs == regs,
            r.cpu_modes == cpu_modes,
    {
        TargetIsa { name: String::from_str(name), settings, regs, cpu_modes }
    }
}

} // verus!
