//! Compiles declarative target descriptions (feature settings, register
//! files, legalization rules) into validated tables.
use vstd::prelude::*;

pub mod cpu_modes;
pub mod isa;
pub mod regs;
pub mod settings;
pub mod x86;

use crate::isa::{SharedDefinitions, TargetIsa};
use crate::regs::RegsError;

verus! {

/// The targets this crate can describe.
#[derive(Clone, Copy, Debug, PartialEq, Eq, Structural)]
pub enum Isa {
    X86,
}

/// Architecture names that select the x86 target.
pub open spec fn is_x86_arch(arch: Seq<char>) -> bool {
    arch == "x86_64"@ || arch == "i386"@ || arch == "i586"@ || arch == "i686"@
}

/// The error message for an architecture with no target.
pub open spec fn no_isa_message(arch: Seq<char>) -> Seq<char> {
    "no supported isa found for arch `"@ + arch + "`"@
}

impl Isa {
    /// The target for architecture name `arch`, if there is one.
    pub fn from_arch(arch: &str) -> (r: Option<Isa>)
        ensures
            r == (if is_x86_arch(arch@) { Some(Isa::X86) } else { None::<Isa> }),
    {
        let a = String::from_str(arch);
        if a == String::from_str("x86_64") || a == String::from_str("i386") || a == String::from_str(
            "i586",
        ) || a == String::from_str("i686") {
            Some(Isa::X86)
        } else {
            None
        }
    }
}

/// The target for architecture name `arch`, or a message naming it.
pub fn isa_from_arch(arch: &str) -> (r: Result<Isa, String>)
    ensures
        is_x86_arch(arch@) ==> r == Ok::<Isa, String>(Isa::X86),
        !is_x86_arch(arch@) ==> r is Err && r->Err_0@ == no_isa_message(arch@),
{
    match Isa::from_arch(arch) {
        Some(isa) => Ok(isa),
        None => {
            let mut msg = String::from_str("no supported isa found for arch `");
            msg.append(arch);
            msg.append("`");
            Err(msg)
        },
    }
}

/// Compiles the description of every target in `isas`, in order, against
/// one set of shared definitions, and returns the targets together with the
/// transform-group registry their legalization rules index into.
pub fn generate(isas: &Vec<Isa>) -> (r: (Vec<TargetIsa>, SharedDefinitions))
    ensures
        r.1.wf(),
        r.0@.len() == isas@.len(),
        forall|i: int|
            0 <= i < isas@.len() ==> {
                let t = #[trigger] r.0@[i];
                &&& t.name@ == "x86"@
                &&& x86::is_x86_settings(t.settings)
                &&& x86::is_x86_regs(t.regs)
                &&& t.cpu_modes@.len() == 2
                &&& x86::is_x86_mode(t.cpu_modes@[0], r.1.transform_groups.names@, true)
                &&& x86::is_x86_mode(t.cpu_modes@[1], r.1.transform_groups.names@, false)
            },
{
    let mut shared_defs = SharedDefinitions::new();
    let mut out: Vec<TargetIsa> = Vec::new();
    let mut i: usize = 0;
    while i < isas.len()
        invariant
            shared_defs.wf(),
            i <= isas@.len(),
            out@.len() == i,
            forall|k: int|
                0 <= k < i ==> {
                    let t = #[trigger] out@[k];
                    &&& t.name@ == "x86"@
                    &&& x86::is_x86_settings(t.settings)
                    &&& x86::is_x86_regs(t.regs)
                    &&& t.cpu_modes@.len() == 2
                    &&& x86::is_x86_mode(t.cpu_modes@[0], shared_defs.transform_groups.names@, true)
                    &&& x86::is_x86_mode(t.cpu_modes@[1], shared_defs.transform_groups.names@, false)
                },
        decreases isas@.len() - i,
    {
        let ghost before = shared_defs.transform_groups.names@;
        let ghost prev = out@;
        match isas[i] {
            Isa::X86 => {
                let t = x86::define(&mut shared_defs);
                out.push(t);
            },
        }
        proof {
            let after = shared_defs.transform_groups.names@;
            assert forall|k: int| 0 <= k < i implies {
                let t = #[trigger] out@[k];
                &&& x86::is_x86_mode(t.cpu_modes@[0], after, true)
                &&& x86::is_x86_mode(t.cpu_modes@[1], after, false)
            } by {
                assert(out@[k] == prev[k]);
                x86::lemma_x86_mode_kept(prev[k].cpu_modes@[0], before, after, true);
                x86::lemma_x86_mode_kept(prev[k].cpu_modes@[1], before, after, false);
            }
        }
        i = i + 1;
    }
    (out, shared_defs)
}

} // verus!
