//! Legalization dispatch per CPU mode: an always-applies rule, a default rule
//! and one rule per controlling value type.
use vstd::prelude::*;

verus! {

/// A controlling value type.
#[derive(Clone, Copy, Debug, PartialEq, Eq, Structural)]
pub enum ValueType {
    B1,
    B8,
    B16,
    B32,
    B64,
    I8,
    I16,
    I32,
    I64,
    I128,
    F32,
    F64,
}

/// An opaque reference to a named group of legalization transforms.
#[derive(Clone, Copy, Debug, PartialEq, Eq, Structural)]
pub struct TransformGroupIndex(pub usize);

/// Why a legalization rule was refused.
#[derive(Clone, Copy, Debug, PartialEq, Eq, Structural)]
pub enum LegalizeError {
    /// The always-applies or the default rule was already set.
    AlreadySet,
    /// The value type already has a rule in this mode.
    DuplicateKey,
}

/// The registry of transform group names; a group's index is its position.
#[derive(Clone, Debug)]
pub struct TransformGroups {
    pub names: Vec<String>,
}

/// One addressing mode of the target with its legalization rules.
#[derive(Clone, Debug)]
pub struct CpuMode {
    pub name: String,
    pub monomorphic: Option<TransformGroupIndex>,
    pub default: Option<TransformGroupIndex>,
    pub typed: Vec<(ValueType, TransformGroupIndex)>,
}

impl TransformGroups {
    /// Group names are unique.
    pub open spec fn wf(&self) -> bool {
        forall|i: int, j: int|
            0 <= i < self.names@.len() && 0 <= j < self.names@.len() && #[trigger] self.names@[i]@
                == #[trigger] self.names@[j]@ ==> i == j
    }

    pub open spec fn has(&self, n: Seq<char>) -> bool {
        exists|i: int| 0 <= i < self.names@.len() && self.names@[i]@ == n
    }

    pub fn new() -> (r: TransformGroups)
        ensures
            r.wf(),
            r.names@.len() == 0,
    {
        TransformGroups { names: Vec::new() }
    }

    /// The index of the group named `name`, if there is one.
    pub fn by_name(&self, name: &str) -> (r: Option<TransformGroupIndex>)
        ensures
            r is None <==> !self.has(name@),
            r is Some ==> r->Some_0.0 < self.names@.len() && self.names@[r->Some_0.0 as int]@
                == name@,
            r is Some ==> forall|k: int| 0 <= k < r->Some_0.0 ==> self.names@[k]@ != name@,
    {
        let n = String::from_str(name);
        let mut i: usize = 0;
        while i < self.names.len()
            invariant
                n@ == name@,
                i <= self.names@.len(),
                forall|k: int| 0 <= k < i ==> self.names@[k]@ != n@,
            decreases self.names@.len() - i,
        {
            if self.names[i] == n {
                return Some(TransformGroupIndex(i));
            }
            i = i + 1;
        }
        None
    }

    /// The index of the group named `name`, registering it first if it is
    /// not there yet.
    pub fn intern(&mut self, name: &str) -> (r: TransformGroupIndex)
        requires
            old(self).wf(),
        ensures
            final(self).wf(),
            r.0 < final(self).names@.len(),
            final(self).names@[r.0 as int]@ == name@,
            old(self).has(name@) ==> *final(self) == *old(self),
            old(self).names@.len() <= final(self).names@.len(),
            forall|k: int|
                0 <= k < old(self).names@.len() ==> final(self).names@[k] == #[trigger] old(
                    self,
                ).names@[k],
            !old(self).has(name@) ==> final(self).names@.len() == old(self).names@.len() + 1
                && r.0 == old(self).names@.len(),
    {
        match self.by_name(name) {
            Some(g) => g,
            None => {
                let i = self.names.len();
                self.names.push(String::from_str(name));
                assert forall|k: int| 0 <= k < i implies self.names@[k] == old(self).names@[k] by {}
                assert forall|a: int, b: int|
                    0 <= a < self.names@.len() && 0 <= b < self.names@.len()
                        && #[trigger] self.names@[a]@ == #[trigger] self.names@[b]@ implies a
                        == b by {
                    if a == i && b < i {
                        assert(old(self).names@[b]@ == name@);
                    }
                    if b == i && a < i {
                        assert(old(self).names@[a]@ == name@);
                    }
                }
                TransformGroupIndex(i)
            },
        }
    }
}

impl CpuMode {
    /// The per-type rules have unique keys.
    pub open spec fn wf(&self) -> bool {
        forall|i: int, j: int|
            0 <= i < self.typed@.len() && 0 <= j < self.typed@.len() && #[trigger] self.typed@[i].0
                == #[trigger] self.typed@[j].0 ==> i == j
    }

    pub open spec fn has_type(&self, ty: ValueType) -> bool {
        exists|i: int| 0 <= i < self.typed@.len() && self.typed@[i].0 == ty
    }

    pub fn new(name: &str) -> (r: CpuMode)
        ensures
            r.wf(),
            r.name@ == name@,
            r.monomorphic is None,
            r.default is None,
            r.typed@.len() == 0,
    {
        CpuMode {
            name: String::from_str(name),
            monomorphic: None,
            default: None,
            typed: Vec::new(),
        }
    }

    /// Sets the rule that applies whatever the controlling type.
    pub fn legalize_monomorphic(&mut self, group: TransformGroupIndex) -> (r: Result<(), LegalizeError>)
        requires
            old(self).wf(),
        ensures
            final(self).wf(),
            r is Err <==> old(self).monomorphic is Some,
            r is Err ==> r == Err::<(), LegalizeError>(LegalizeError::AlreadySet) && *final(self)
                == *old(self),
            r is Ok ==> final(self).monomorphic == Some(group) && final(self).default == old(
                self,
            ).default && final(self).typed == old(self).typed && final(self).name == old(self).name,
    {
        if self.monomorphic.is_some() {
            return Err(LegalizeError::AlreadySet);
        }
        self.monomorphic = Some(group);
        Ok(())
    }

    /// Sets the rule for types that have no rule of their own.
    pub fn legalize_default(&mut self, group: TransformGroupIndex) -> (r: Result<(), LegalizeError>)
        requires
            old(self).wf(),
        ensures
            final(self).wf(),
            r is Err <==> old(self).default is Some,
            r is Err ==> r == Err::<(), LegalizeError>(LegalizeError::AlreadySet) && *final(self)
                == *old(self),
            r is Ok ==> final(self).default == Some(group) && final(self).monomorphic == old(
                self,
            ).monomorphic && final(self).typed == old(self).typed && final(self).name == old(
                self,
            ).name,
    {
        if self.default.is_some() {
            return Err(LegalizeError::AlreadySet);
        }
        self.default = Some(group);
        Ok(())
    }

    /// Sets the rule for controlling type `ty`.
    pub fn legalize_type(&mut self, ty: ValueType, group: TransformGroupIndex) -> (r: Result<
        (),
        LegalizeError,
    >)
        requires
            old(self).wf(),
        ensures
            final(self).wf(),
            r is Err <==> old(self).has_type(ty),
            r is Err ==> r == Err::<(), LegalizeError>(LegalizeError::DuplicateKey) && *final(self)
                == *old(self),
            r is Ok ==> final(self).typed@ == old(self).typed@.push((ty, group))
                && final(self).default == old(self).default && final(self).monomorphic == old(
                self,
            ).monomorphic && final(self).name == old(self).name,
    {
        let mut i: usize = 0;
        while i < self.typed.len()
            invariant
                self.wf(),
                i <= self.typed@.len(),
                forall|k: int| 0 <= k < i ==> self.typed@[k].0 != ty,
            decreases self.typed@.len() - i,
        {
            if self.typed[i].0 == ty {
                assert(old(self).has_type(ty));
                return Err(LegalizeError::DuplicateKey);
            }
            i = i + 1;
        }
        self.typed.push((ty, group));
        assert forall|a: int, b: int|
            0 <= a < self.typed@.len() && 0 <= b < self.typed@.len() && #[trigger] self.typed@[a].0
                == #[trigger] self.typed@[b].0 implies a == b by {
            if a < i && b < i {
                assert(old(self).typed@[a] == self.typed@[a]);
                assert(old(self).typed@[b] == self.typed@[b]);
            }
        }
        Ok(())
    }

    /// The rule that always applies in this mode, if any.
    pub fn get_monomorphic(&self) -> (r: Option<TransformGroupIndex>)
        ensures
            r == self.monomorphic,
    {
        self.monomorphic
    }

    /// The rule selected for controlling type `ty`: its own rule if it has
    /// one, else the mode's default, else none.
    pub fn get_legalize_code_for(&self, ty: ValueType) -> (r: Option<TransformGroupIndex>)
        requires
            self.wf(),
        ensures
            forall|i: int|
                0 <= i < self.typed@.len() && #[trigger] self.typed@[i].0 == ty ==> r == Some(
                    self.typed@[i].1,
                ),
            !self.has_type(ty) ==> r == self.default,
    {
        let mut i: usize = 0;
        while i < self.typed.len()
            invariant
                self.wf(),
                i <= self.typed@.len(),
                forall|k: int| 0 <= k < i ==> self.typed@[k].0 != ty,
            decreases self.typed@.len() - i,
        {
            if self.typed[i].0 == ty {
                return Some(self.typed[i].1);
            }
            i = i + 1;
        }
        self.default
    }
}

} // verus!
