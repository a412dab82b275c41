//! Boolean feature flags, derived predicates and presets, compiled into one
//! bit layout: every flag in declaration order, then every predicate.
use vstd::prelude::*;

verus! {

/// A reference to a declared flag or predicate, by declaration index.
#[derive(Clone, Copy, Debug, PartialEq, Eq, Structural)]
pub enum SettingRef {
    Flag(usize),
    Predicate(usize),
}

/// Why a declaration was refused.
#[derive(Clone, Copy, Debug, PartialEq, Eq, Structural)]
pub enum SettingsError {
    /// The name is already used by a flag, a predicate or a preset.
    DuplicateName,
    /// A referenced flag, predicate or preset has not been declared yet.
    UndeclaredReference,
}

/// A named boolean feature of the target.
#[derive(Clone, Debug)]
pub struct BoolSetting {
    pub name: String,
    pub doc: String,
    pub default: bool,
}

/// A named conjunction of earlier flags and predicates.
#[derive(Clone, Debug)]
pub struct Predicate {
    pub name: String,
    pub terms: Vec<SettingRef>,
}

/// A preset while the group is being declared: its own implied items, the
/// presets it extends, and the union of both (`effective`).
#[derive(Clone, Debug)]
pub struct PresetDef {
    pub name: String,
    pub implied: Vec<SettingRef>,
    pub extends: Vec<usize>,
    pub effective: Vec<SettingRef>,
}

/// A compiled preset: `mask[k]` marks the bits it forces on.
#[derive(Clone, Debug)]
pub struct Preset {
    pub name: String,
    pub implied: Vec<SettingRef>,
    pub extends: Vec<usize>,
    pub mask: Vec<bool>,
}

/// The mutable staging area of a setting group.
#[derive(Debug)]
pub struct SettingGroupBuilder {
    pub name: String,
    pub flags: Vec<BoolSetting>,
    pub predicates: Vec<Predicate>,
    pub presets: Vec<PresetDef>,
}

/// The finished, immutable settings descriptor.
#[derive(Clone, Debug)]
pub struct SettingGroup {
    pub name: String,
    pub flags: Vec<BoolSetting>,
    pub predicates: Vec<Predicate>,
    pub presets: Vec<Preset>,
}

/// A flag or predicate reference that points at an existing declaration.
pub open spec fn ref_in(r: SettingRef, n_flags: nat, n_preds: nat) -> bool {
    match r {
        SettingRef::Flag(i) => i < n_flags,
        SettingRef::Predicate(j) => j < n_preds,
    }
}

/// The bit that a flag or predicate occupies when there are `n_flags` flags.
pub open spec fn bit_of(r: SettingRef, n_flags: nat) -> nat {
    match r {
        SettingRef::Flag(i) => i as nat,
        SettingRef::Predicate(j) => (n_flags + j) as nat,
    }
}

/// The flag or predicate that occupies bit `k`.
pub open spec fn ref_at(k: nat, n_flags: nat) -> SettingRef {
    if k < n_flags {
        SettingRef::Flag(k as usize)
    } else {
        SettingRef::Predicate((k - n_flags) as usize)
    }
}

/// The value of reference `r` within a full bit vector.
pub open spec fn ref_value(bits: Seq<bool>, r: SettingRef, n_flags: nat) -> bool {
    bits[bit_of(r, n_flags) as int]
}

/// A predicate term is well placed when it refers to a flag or to a predicate
/// declared before predicate `j`.
pub open spec fn term_ok(r: SettingRef, n_flags: nat, j: int) -> bool {
    match r {
        SettingRef::Flag(i) => i < n_flags,
        SettingRef::Predicate(p) => p < j,
    }
}

impl SettingRef {
    pub fn is_declared(&self, n_flags: usize, n_preds: usize) -> (r: bool)
        ensures
            r == ref_in(*self, n_flags as nat, n_preds as nat),
    {
        match self {
            SettingRef::Flag(i) => *i < n_flags,
            SettingRef::Predicate(j) => *j < n_preds,
        }
    }
}

impl SettingGroupBuilder {
    pub open spec fn n_flags(&self) -> nat {
        self.flags@.len()
    }

    pub open spec fn n_preds(&self) -> nat {
        self.predicates@.len()
    }

    /// The one namespace shared by flags, predicates and presets.
    pub open spec fn name_taken(&self, n: Seq<char>) -> bool {
        (exists|i: int| 0 <= i < self.flags@.len() && self.flags@[i].name@ == n)
            || (exists|i: int| 0 <= i < self.predicates@.len() && self.predicates@[i].name@ == n)
            || (exists|i: int| 0 <= i < self.presets@.len() && self.presets@[i].name@ == n)
    }

    pub open spec fn effective_contains(&self, p: int, x: SettingRef) -> bool {
        self.presets@[p].effective@.contains(x)
    }

    /// Predicates refer only to earlier declarations; each preset's effective
    /// set is the union of its own items with the effective sets of the
    /// earlier presets it extends.
    pub open spec fn wf(&self) -> bool {
        &&& self.flags@.len() + self.predicates@.len() <= usize::MAX
        &&& forall|j: int, k: int|
            0 <= j < self.predicates@.len() && 0 <= k < self.predicates@[j].terms@.len()
                ==> term_ok(#[trigger] self.predicates@[j].terms@[k], self.n_flags(), j)
        &&& forall|p: int, k: int|
            0 <= p < self.presets@.len() && 0 <= k < self.presets@[p].implied@.len()
                ==> ref_in(#[trigger] self.presets@[p].implied@[k], self.n_flags(), self.n_preds())
        &&& forall|p: int, k: int|
            0 <= p < self.presets@.len() && 0 <= k < self.presets@[p].extends@.len()
                ==> #[trigger] self.presets@[p].extends@[k] < p
        &&& forall|p: int, k: int|
            0 <= p < self.presets@.len() && 0 <= k < self.presets@[p].effective@.len()
                ==> ref_in(#[trigger] self.presets@[p].effective@[k], self.n_flags(), self.n_preds())
        &&& forall|p: int, x: SettingRef|
            0 <= p < self.presets@.len() ==> (#[trigger] self.effective_contains(p, x) <==> (
            self.presets@[p].implied@.contains(x) || exists|k: int|
                0 <= k < self.presets@[p].extends@.len() && self.effective_contains(
                    self.presets@[p].extends@[k] as int,
                    x,
                )))
    }

    pub fn new(name: &str) -> (r: SettingGroupBuilder)
        ensures
            r.wf(),
            r.name@ == name@,
            r.flags@.len() == 0,
            r.predicates@.len() == 0,
            r.presets@.len() == 0,
    {
        SettingGroupBuilder {
            name: String::from_str(name),
            flags: Vec::new(),
            predicates: Vec::new(),
            presets: Vec::new(),
        }
    }

    /// Whether `n` is already the name of a flag, predicate or preset.
    pub fn is_name_taken(&self, n: &String) -> (r: bool)
        ensures
            r == self.name_taken(n@),
    {
        let mut i: usize = 0;
        while i < self.flags.len()
            invariant
                i <= self.flags@.len(),
                forall|k: int| 0 <= k < i ==> self.flags@[k].name@ != n@,
            decreases self.flags@.len() - i,
        {
            if self.flags[i].name == *n {
                return true;
            }
            i = i + 1;
        }
        let mut i: usize = 0;
        while i < self.predicates.len()
            invariant
                i <= self.predicates@.len(),
                forall|k: int| 0 <= k < i ==> self.predicates@[k].name@ != n@,
            decreases self.predicates@.len() - i,
        {
            if self.predicates[i].name == *n {
                return true;
            }
            i = i + 1;
        }
        let mut i: usize = 0;
        while i < self.presets.len()
            invariant
                i <= self.presets@.len(),
                forall|k: int| 0 <= k < i ==> self.presets@[k].name@ != n@,
            decreases self.presets@.len() - i,
        {
            if self.presets[i].name == *n {
                return true;
            }
            i = i + 1;
        }
        false
    }
}


/// Flag `f` carries the given name, doc string and default.
pub open spec fn flag_is(f: BoolSetting, name: Seq<char>, doc: Seq<char>, default: bool) -> bool {
    f.name@ == name && f.doc@ == doc && f.default == default
}

proof fn lemma_concat_contains(a: Seq<SettingRef>, b: Seq<SettingRef>)
    ensures
        forall|x: SettingRef| #[trigger] (a + b).contains(x) <==> a.contains(x) || b.contains(x),
{
    assert forall|x: SettingRef| #[trigger] (a + b).contains(x) implies a.contains(x) || b.contains(
        x,
    ) by {
        let i = choose|i: int| 0 <= i < (a + b).len() && (a + b)[i] == x;
        if i >= a.len() {
            assert(b[i - a.len()] == x);
        }
    }
    assert forall|x: SettingRef| a.contains(x) || b.contains(x) implies #[trigger] (a + b).contains(
        x,
    ) by {
        if a.contains(x) {
            let i = choose|i: int| 0 <= i < a.len() && a[i] == x;
            assert((a + b)[i] == x);
        } else {
            let i = choose|i: int| 0 <= i < b.len() && b[i] == x;
            assert((a + b)[a.len() + i] == x);
        }
    }
}

fn push_all(dst: &mut Vec<SettingRef>, src: &Vec<SettingRef>)
    ensures
        final(dst)@ == old(dst)@ + src@,
{
    let mut i: usize = 0;
    while i < src.len()
        invariant
            i <= src@.len(),
            dst@ == old(dst)@ + src@.subrange(0, i as int),
        decreases src@.len() - i,
    {
        dst.push(src[i]);
        i = i + 1;
        assert(src@.subrange(0, i as int) == src@.subrange(0, i - 1).push(src@[i - 1]));
    }
    assert(src@.subrange(0, src@.len() as int) == src@);
}

proof fn lemma_wf_grow(o: SettingGroupBuilder, s: SettingGroupBuilder)
    requires
        o.wf(),
        s.presets == o.presets,
        o.n_flags() <= s.n_flags(),
        o.n_preds() <= s.n_preds(),
        s.flags@.len() + s.predicates@.len() <= usize::MAX,
        forall|j: int, k: int|
            0 <= j < s.predicates@.len() && 0 <= k < s.predicates@[j].terms@.len()
                ==> term_ok(#[trigger] s.predicates@[j].terms@[k], s.n_flags(), j),
    ensures
        s.wf(),
{
    assert forall|p: int, x: SettingRef| 0 <= p < s.presets@.len() implies (
    #[trigger] s.effective_contains(p, x) <==> (s.presets@[p].implied@.contains(x) || exists|k: int|
        0 <= k < s.presets@[p].extends@.len() && s.effective_contains(
            s.presets@[p].extends@[k] as int,
            x,
        ))) by {
        assert(o.effective_contains(p, x) == s.effective_contains(p, x));
        if exists|k: int|
            0 <= k < s.presets@[p].extends@.len() && s.effective_contains(
                s.presets@[p].extends@[k] as int,
                x,
            ) {
            let k = choose|k: int|
                0 <= k < s.presets@[p].extends@.len() && s.effective_contains(
                    s.presets@[p].extends@[k] as int,
                    x,
                );
            assert(o.effective_contains(o.presets@[p].extends@[k] as int, x));
        }
        if exists|k: int|
            0 <= k < o.presets@[p].extends@.len() && o.effective_contains(
                o.presets@[p].extends@[k] as int,
                x,
            ) {
            let k = choose|k: int|
                0 <= k < o.presets@[p].extends@.len() && o.effective_contains(
                    o.presets@[p].extends@[k] as int,
                    x,
                );
            assert(s.effective_contains(s.presets@[p].extends@[k] as int, x));
        }
    }
}

impl SettingGroupBuilder {
    /// Declares a boolean flag; its index is its bit in the finished layout.
    pub fn add_bool(&mut self, name: &str, doc: &str, default: bool) -> (r: Result<
        usize,
        SettingsError,
    >)
        requires
            old(self).wf(),
            old(self).flags@.len() + old(self).predicates@.len() < usize::MAX,
        ensures
            final(self).wf(),
            r is Err <==> old(self).name_taken(name@),
            r is Err ==> r == Err::<usize, SettingsError>(SettingsError::DuplicateName) 
                && *final(self) == *old(self),
            r is Ok ==> {
                &&& r == Ok::<usize, SettingsError>(old(self).flags@.len() as usize)
                &&& final(self).flags@.len() == old(self).flags@.len() + 1
                &&& final(self).flags@.subrange(0, old(self).flags@.len() as int) == old(self).flags@
                &&& flag_is(final(self).flags@.last(), name@, doc@, default)
                &&& final(self).name == old(self).name
                &&& final(self).predicates == old(self).predicates
                &&& final(self).presets == old(self).presets
            },
    {
        let n = String::from_str(name);
        if self.is_name_taken(&n) {
            return Err(SettingsError::DuplicateName);
        }
        let index = self.flags.len();
        self.flags.push(BoolSetting { name: n, doc: String::from_str(doc), default });
        assert(self.flags@.subrange(0, index as int) =~= old(self).flags@);
        proof {
            lemma_wf_grow(*old(self), *self);
        }
        Ok(index)
    }

    /// Declares a predicate: the conjunction of `terms`, each an earlier flag
    /// or predicate.
    pub fn add_predicate(&mut self, name: &str, terms: Vec<SettingRef>) -> (r: Result<
        usize,
        SettingsError,
    >)
        requires
            old(self).wf(),
            old(self).flags@.len() + old(self).predicates@.len() < usize::MAX,
        ensures
            final(self).wf(),
            old(self).name_taken(name@) ==> r == Err::<usize, SettingsError>(
                SettingsError::DuplicateName,
            ),
            !old(self).name_taken(name@) && (exists|k: int|
                0 <= k < terms@.len() && !ref_in(
                    #[trigger] terms@[k],
                    old(self).n_flags(),
                    old(self).n_preds(),
                )) ==> r == Err::<usize, SettingsError>(SettingsError::UndeclaredReference),
            r is Ok <==> !old(self).name_taken(name@) && (forall|k: int|
                0 <= k < terms@.len() ==> ref_in(
                    #[trigger] terms@[k],
                    old(self).n_flags(),
                    old(self).n_preds(),
                )),
            r is Err ==> *final(self) == *old(self),
            r is Ok ==> {
                &&& r == Ok::<usize, SettingsError>(old(self).predicates@.len() as usize)
                &&& final(self).predicates@.len() == old(self).predicates@.len() + 1
                &&& final(self).predicates@.subrange(0, old(self).predicates@.len() as int)
                    == old(self).predicates@
                &&& final(self).predicates@.last().name@ == name@
                &&& final(self).predicates@.last().terms@ == terms@
                &&& final(self).name == old(self).name
                &&& final(self).flags == old(self).flags
                &&& final(self).presets == old(self).presets
            },
    {
        let n = String::from_str(name);
        if self.is_name_taken(&n) {
            return Err(SettingsError::DuplicateName);
        }
        let mut k: usize = 0;
        while k < terms.len()
            invariant
                self == old(self),
                old(self).wf(),
                n@ == name@,
                !old(self).name_taken(name@),
                k <= terms@.len(),
                forall|i: int|
                    0 <= i < k ==> ref_in(#[trigger] terms@[i], self.n_flags(), self.n_preds()),
            decreases terms@.len() - k,
        {
            if !terms[k].is_declared(self.flags.len(), self.predicates.len()) {
                return Err(SettingsError::UndeclaredReference);
            }
            k = k + 1;
        }
        let index = self.predicates.len();
        self.predicates.push(Predicate { name: n, terms });
        assert(self.predicates@.subrange(0, index as int) =~= old(self).predicates@);
        assert forall|j: int, k: int|
            0 <= j < self.predicates@.len() && 0 <= k < self.predicates@[j].terms@.len()
                implies term_ok(#[trigger] self.predicates@[j].terms@[k], self.n_flags(), j) by {
            if j < index {
                assert(self.predicates@[j] == old(self).predicates@[j]);
            }
        }
        proof {
            lemma_wf_grow(*old(self), *self);
        }
        Ok(index)
    }

    /// Declares a preset that forces `implied` on, together with everything
    /// the presets in `extends` force on.
    pub fn add_preset(&mut self, name: &str, implied: Vec<SettingRef>, extends: Vec<usize>) -> (r:
        Result<usize, SettingsError>)
        requires
            old(self).wf(),
        ensures
            final(self).wf(),
            old(self).name_taken(name@) ==> r == Err::<usize, SettingsError>(
                SettingsError::DuplicateName,
            ),
            !old(self).name_taken(name@) && ((exists|k: int|
                0 <= k < implied@.len() && !ref_in(
                    #[trigger] implied@[k],
                    old(self).n_flags(),
                    old(self).n_preds(),
                )) || (exists|k: int|
                0 <= k < extends@.len() && #[trigger] extends@[k] >= old(self).presets@.len()))
                ==> r == Err::<usize, SettingsError>(SettingsError::UndeclaredReference),
            r is Ok <==> !old(self).name_taken(name@) && (forall|k: int|
                0 <= k < implied@.len() ==> ref_in(
                    #[trigger] implied@[k],
                    old(self).n_flags(),
                    old(self).n_preds(),
                )) && (forall|k: int| 0 <= k < extends@.len() ==> #[trigger] extends@[k] < old(self).presets@.len()),
            r is Err ==> *final(self) == *old(self),
            r is Ok ==> {
                &&& r == Ok::<usize, SettingsError>(old(self).presets@.len() as usize)
                &&& final(self).presets@.len() == old(self).presets@.len() + 1
                &&& final(self).presets@.subrange(0, old(self).presets@.len() as int)
                    == old(self).presets@
                &&& final(self).presets@.last().name@ == name@
                &&& final(self).presets@.last().implied@ == implied@
                &&& final(self).presets@.last().extends@ == extends@
                &&& final(self).name == old(self).name
                &&& final(self).flags == old(self).flags
                &&& final(self).predicates == old(self).predicates
            },
    {
        let n = String::from_str(name);
        if self.is_name_taken(&n) {
            return Err(SettingsError::DuplicateName);
        }
        let mut k: usize = 0;
        while k < implied.len()
            invariant
                self == old(self),
                old(self).wf(),
                n@ == name@,
                !old(self).name_taken(name@),
                k <= implied@.len(),
                forall|i: int|
                    0 <= i < k ==> ref_in(#[trigger] implied@[i], self.n_flags(), self.n_preds()),
            decreases implied@.len() - k,
        {
            if !implied[k].is_declared(self.flags.len(), self.predicates.len()) {
                return Err(SettingsError::UndeclaredReference);
            }
            k = k + 1;
        }
        let mut k: usize = 0;
        while k < extends.len()
            invariant
                self == old(self),
                old(self).wf(),
                n@ == name@,
                !old(self).name_taken(name@),
                k <= extends@.len(),
                forall|i: int| 0 <= i < k ==> #[trigger] extends@[i] < self.presets@.len(),
            decreases extends@.len() - k,
        {
            if extends[k] >= self.presets.len() {
                return Err(SettingsError::UndeclaredReference);
            }
            k = k + 1;
        }
        let mut effective: Vec<SettingRef> = Vec::new();
        let mut k: usize = 0;
        while k < extends.len()
            invariant
                self == old(self),
                old(self).wf(),
                n@ == name@,
                !old(self).name_taken(name@),
                self.wf(),
                k <= extends@.len(),
                forall|i: int| 0 <= i < extends@.len() ==> #[trigger] extends@[i] < self.presets@.len(),
                forall|i: int|
                    0 <= i < effective@.len() ==> ref_in(
                        #[trigger] effective@[i],
                        self.n_flags(),
                        self.n_preds(),
                    ),
                forall|x: SettingRef|
                    #[trigger] effective@.contains(x) <==> exists|i: int|
                        0 <= i < k && self.effective_contains(extends@[i] as int, x),
            decreases extends@.len() - k,
        {
            let ghost before = effective@;
            let e = extends[k];
            push_all(&mut effective, &self.presets[e].effective);
            proof {
                lemma_concat_contains(before, self.presets@[e as int].effective@);
                assert forall|x: SettingRef| #[trigger] effective@.contains(x) <==> exists|i: int|
                    0 <= i < k + 1 && self.effective_contains(extends@[i] as int, x) by {
                    if self.effective_contains(e as int, x) {
                        assert(0 <= k < k + 1 && self.effective_contains(extends@[k as int] as int, x));
                    }
                }
                assert forall|i: int| 0 <= i < effective@.len() implies ref_in(
                    #[trigger] effective@[i],
                    self.n_flags(),
                    self.n_preds(),
                ) by {
                    if i >= before.len() {
                        assert(effective@[i] == self.presets@[e as int].effective@[i - before.len()]);
                    }
                }
            }
            k = k + 1;
        }
        let ghost before = effective@;
        push_all(&mut effective, &implied);
        proof {
            lemma_concat_contains(before, implied@);
            assert forall|i: int| 0 <= i < effective@.len() implies ref_in(
                #[trigger] effective@[i],
                self.n_flags(),
                self.n_preds(),
            ) by {
                if i >= before.len() {
                    assert(effective@[i] == implied@[i - before.len()]);
                }
            }
        }
        let index = self.presets.len();
        let ghost imp = implied@;
        let ghost ext = extends@;
        let ghost eff = effective@;
        assert(forall|x: SettingRef| #[trigger] eff.contains(x) <==> (imp.contains(x) || exists|i: int|
            0 <= i < ext.len() && old(self).effective_contains(ext[i] as int, x)));
        self.presets.push(PresetDef { name: n, implied, extends, effective });
        proof {
            let s = *self;
            let o = *old(self);
            assert(s.presets@.subrange(0, index as int) =~= o.presets@);
            assert forall|p: int, x: SettingRef| 0 <= p < s.presets@.len() implies (
            #[trigger] s.effective_contains(p, x) <==> (s.presets@[p].implied@.contains(x)
                || exists|k: int|
                0 <= k < s.presets@[p].extends@.len() && s.effective_contains(
                    s.presets@[p].extends@[k] as int,
                    x,
                ))) by {
                if p < index {
                    assert(s.presets@[p] == o.presets@[p]);
                    assert(o.effective_contains(p, x) <==> (o.presets@[p].implied@.contains(x)
                        || exists|k: int|
                        0 <= k < o.presets@[p].extends@.len() && o.effective_contains(
                            o.presets@[p].extends@[k] as int,
                            x,
                        )));
                    if exists|k: int|
                        0 <= k < o.presets@[p].extends@.len() && o.effective_contains(
                            o.presets@[p].extends@[k] as int,
                            x,
                        ) {
                        let k = choose|k: int|
                            0 <= k < o.presets@[p].extends@.len() && o.effective_contains(
                                o.presets@[p].extends@[k] as int,
                                x,
                            );
                        assert(s.presets@[o.presets@[p].extends@[k] as int] == o.presets@[o.presets@[p].extends@[k] as int]);
                    }
                    if exists|k: int|
                        0 <= k < s.presets@[p].extends@.len() && s.effective_contains(
                            s.presets@[p].extends@[k] as int,
                            x,
                        ) {
                        let k = choose|k: int|
                            0 <= k < s.presets@[p].extends@.len() && s.effective_contains(
                                s.presets@[p].extends@[k] as int,
                                x,
                            );
                        assert(o.presets@[p].extends@[k] < p);
                        assert(s.presets@[o.presets@[p].extends@[k] as int] == o.presets@[o.presets@[p].extends@[k] as int]);
                    }
                } else {
                    assert(s.presets@[p].effective@ == eff);
                    assert(s.presets@[p].implied@ == imp);
                    assert(s.presets@[p].extends@ == ext);
                    assert(s.effective_contains(p, x) == eff.contains(x));
                    if exists|k: int|
                        0 <= k < s.presets@[p].extends@.len() && s.effective_contains(
                            s.presets@[p].extends@[k] as int,
                            x,
                        ) {
                        let k = choose|k: int|
                            0 <= k < s.presets@[p].extends@.len() && s.effective_contains(
                                s.presets@[p].extends@[k] as int,
                                x,
                            );
                        assert(s.presets@[s.presets@[p].extends@[k] as int] == o.presets@[s.presets@[p].extends@[k] as int]);
                    }
                    if exists|i: int|
                        0 <= i < s.presets@[p].extends@.len() && o.effective_contains(s.presets@[p].extends@[i] as int, x) {
                        let k = choose|i: int|
                            0 <= i < s.presets@[p].extends@.len() && o.effective_contains(s.presets@[p].extends@[i] as int, x);
                        assert(s.presets@[s.presets@[p].extends@[k] as int] == o.presets@[s.presets@[p].extends@[k] as int]);
                    }
                }
            }
            assert forall|p: int, k: int|
                0 <= p < s.presets@.len() && 0 <= k < s.presets@[p].effective@.len()
                    implies ref_in(#[trigger] s.presets@[p].effective@[k], s.n_flags(), s.n_preds()) by {
                if p < index {
                    assert(s.presets@[p] == o.presets@[p]);
                }
            }
            assert forall|p: int, k: int|
                0 <= p < s.presets@.len() && 0 <= k < s.presets@[p].implied@.len()
                    implies ref_in(#[trigger] s.presets@[p].implied@[k], s.n_flags(), s.n_preds()) by {
                if p < index {
                    assert(s.presets@[p] == o.presets@[p]);
                }
            }
            assert forall|p: int, k: int|
                0 <= p < s.presets@.len() && 0 <= k < s.presets@[p].extends@.len()
                    implies #[trigger] s.presets@[p].extends@[k] < p by {
                if p < index {
                    assert(s.presets@[p] == o.presets@[p]);
                }
            }
        }
        Ok(index)
    }
}


fn copy_vec<T: Copy>(v: &Vec<T>) -> (r: Vec<T>)
    ensures
        r@ == v@,
{
    let mut r: Vec<T> = Vec::new();
    let mut i: usize = 0;
    while i < v.len()
        invariant
            i <= v@.len(),
            r@ == v@.subrange(0, i as int),
        decreases v@.len() - i,
    {
        r.push(v[i]);
        i = i + 1;
        assert(r@ =~= v@.subrange(0, i as int));
    }
    assert(r@ =~= v@);
    r
}

impl SettingGroupBuilder {
    /// Assigns the final bit layout (flags, then predicates) and compiles
    /// every preset's effective set into a mask over it. Consuming the
    /// builder makes any later declaration impossible.
    pub fn finish(self) -> (r: SettingGroup)
        requires
            self.wf(),
        ensures
            r.wf(),
            r.name == self.name,
            r.flags == self.flags,
            r.predicates == self.predicates,
            r.presets@.len() == self.presets@.len(),
            forall|p: int|
                0 <= p < r.presets@.len() ==> {
                    &&& (#[trigger] r.presets@[p]).name@ == self.presets@[p].name@
                    &&& r.presets@[p].implied@ == self.presets@[p].implied@
                    &&& r.presets@[p].extends@ == self.presets@[p].extends@
                },
            forall|p: int, k: int|
                0 <= p < r.presets@.len() && 0 <= k < r.bit_count() ==> #[trigger] r.presets@[p].mask@[k]
                    == self.effective_contains(p, ref_at(k as nat, self.n_flags())),
    {
        let n_flags = self.flags.len();
        let n_bits = self.flags.len() + self.predicates.len();
        let mut presets: Vec<Preset> = Vec::new();
        let mut p: usize = 0;
        while p < self.presets.len()
            invariant
                self.wf(),
                n_flags == self.n_flags(),
                n_bits == self.n_flags() + self.n_preds(),
                p <= self.presets@.len(),
                presets@.len() == p,
                forall|q: int|
                    0 <= q < p ==> {
                        &&& (#[trigger] presets@[q]).name@ == self.presets@[q].name@
                        &&& presets@[q].implied@ == self.presets@[q].implied@
                        &&& presets@[q].extends@ == self.presets@[q].extends@
                        &&& presets@[q].mask@.len() == n_bits
                    },
                forall|q: int, k: int|
                    0 <= q < p && 0 <= k < n_bits ==> #[trigger] presets@[q].mask@[k]
                        == self.effective_contains(q, ref_at(k as nat, n_flags as nat)),
            decreases self.presets@.len() - p,
        {
            let def = &self.presets[p];
            let mut mask: Vec<bool> = Vec::new();
            while mask.len() < n_bits
                invariant
                    mask@.len() <= n_bits,
                    forall|k: int| 0 <= k < mask@.len() ==> !#[trigger] mask@[k],
                decreases n_bits - mask@.len(),
            {
                mask.push(false);
            }
            let mut e: usize = 0;
            while e < def.effective.len()
                invariant
                    self.wf(),
                    def == self.presets@[p as int],
                    p < self.presets@.len(),
                    n_flags == self.n_flags(),
                    n_bits == self.n_flags() + self.n_preds(),
                    e <= def.effective@.len(),
                    mask@.len() == n_bits,
                    forall|k: int|
                        0 <= k < n_bits ==> (#[trigger] mask@[k] <==> exists|i: int|
                            0 <= i < e && def.effective@[i] == ref_at(k as nat, n_flags as nat)),
                decreases def.effective@.len() - e,
            {
                let item = def.effective[e];
                assert(ref_in(def.effective@[e as int], self.n_flags(), self.n_preds()));
                let b: usize = match item {
                    SettingRef::Flag(i) => i,
                    SettingRef::Predicate(j) => n_flags + j,
                };
                mask.set(b, true);
                assert forall|k: int|
                    0 <= k < n_bits implies (#[trigger] mask@[k] <==> exists|i: int|
                        0 <= i < e + 1 && def.effective@[i] == ref_at(k as nat, n_flags as nat)) by {
                    if k == b {
                        assert(def.effective@[e as int] == ref_at(k as nat, n_flags as nat));
                    }
                }
                e = e + 1;
            }
            assert forall|k: int|
                0 <= k < n_bits implies (#[trigger] mask@[k] == self.effective_contains(
                    p as int,
                    ref_at(k as nat, n_flags as nat),
                )) by {
                if self.effective_contains(p as int, ref_at(k as nat, n_flags as nat)) {
                    let i = choose|i: int|
                        0 <= i < def.effective@.len() && def.effective@[i] == ref_at(
                            k as nat,
                            n_flags as nat,
                        );
                    assert(def.effective@[i] == ref_at(k as nat, n_flags as nat));
                }
            }
            presets.push(
                Preset {
                    name: def.name.clone(),
                    implied: copy_vec(&def.implied),
                    extends: copy_vec(&def.extends),
                    mask,
                },
            );
            p = p + 1;
        }
        let r = SettingGroup {
            name: self.name,
            flags: self.flags,
            predicates: self.predicates,
            presets,
        };
        proof {
            assert forall|p: int, k: int|
                0 <= p < r.presets@.len() && 0 <= k < r.bit_count() implies (
                #[trigger] r.presets@[p].mask@[k] <==> (r.presets@[p].implied@.contains(
                    ref_at(k as nat, r.n_flags()),
                ) || exists|e: int|
                    0 <= e < r.presets@[p].extends@.len()
                        && r.presets@[r.presets@[p].extends@[e] as int].mask@[k])) by {
                let x = ref_at(k as nat, r.n_flags());
                assert(self.effective_contains(p, x) <==> (self.presets@[p].implied@.contains(x)
                    || exists|e: int|
                    0 <= e < self.presets@[p].extends@.len() && self.effective_contains(
                        self.presets@[p].extends@[e] as int,
                        x,
                    )));
                if exists|e: int|
                    0 <= e < self.presets@[p].extends@.len() && self.effective_contains(
                        self.presets@[p].extends@[e] as int,
                        x,
                    ) {
                    let e = choose|e: int|
                        0 <= e < self.presets@[p].extends@.len() && self.effective_contains(
                            self.presets@[p].extends@[e] as int,
                            x,
                        );
                    assert(r.presets@[r.presets@[p].extends@[e] as int].mask@[k]);
                }
                if exists|e: int|
                    0 <= e < r.presets@[p].extends@.len()
                        && r.presets@[r.presets@[p].extends@[e] as int].mask@[k] {
                    let e = choose|e: int|
                        0 <= e < r.presets@[p].extends@.len()
                            && r.presets@[r.presets@[p].extends@[e] as int].mask@[k];
                    assert(self.effective_contains(self.presets@[p].extends@[e] as int, x));
                }
            }
            assert forall|p: int, k: int|
                0 <= p < r.presets@.len() && 0 <= k < r.presets@[p].implied@.len()
                    implies ref_in(#[trigger] r.presets@[p].implied@[k], r.n_flags(), r.n_preds()) by {
                assert(r.presets@[p].implied@[k] == self.presets@[p].implied@[k]);
            }
            assert forall|p: int, k: int|
                0 <= p < r.presets@.len() && 0 <= k < r.presets@[p].extends@.len()
                    implies #[trigger] r.presets@[p].extends@[k] < p by {
                assert(r.presets@[p].extends@[k] == self.presets@[p].extends@[k]);
            }
        }
        r
    }
}

impl SettingGroup {
    pub open spec fn n_flags(&self) -> nat {
        self.flags@.len()
    }

    pub open spec fn n_preds(&self) -> nat {
        self.predicates@.len()
    }

    /// Number of bits in the layout: one per flag, then one per predicate.
    pub open spec fn bit_count(&self) -> nat {
        self.n_flags() + self.n_preds()
    }

    /// Predicates refer only to earlier declarations, and each preset's mask
    /// is the union of its own items with the masks of the presets it
    /// extends, all of them declared before it.
    pub open spec fn wf(&self) -> bool {
        &&& self.bit_count() <= usize::MAX
        &&& forall|j: int, k: int|
            0 <= j < self.predicates@.len() && 0 <= k < self.predicates@[j].terms@.len()
                ==> term_ok(#[trigger] self.predicates@[j].terms@[k], self.n_flags(), j)
        &&& forall|p: int, k: int|
            0 <= p < self.presets@.len() && 0 <= k < self.presets@[p].implied@.len()
                ==> ref_in(#[trigger] self.presets@[p].implied@[k], self.n_flags(), self.n_preds())
        &&& forall|p: int, k: int|
            0 <= p < self.presets@.len() && 0 <= k < self.presets@[p].extends@.len()
                ==> #[trigger] self.presets@[p].extends@[k] < p
        &&& forall|p: int| 0 <= p < self.presets@.len() ==> (#[trigger] self.presets@[p]).mask@.len() == self.bit_count()
        &&& forall|p: int, k: int|
            0 <= p < self.presets@.len() && 0 <= k < self.bit_count() ==> (
            #[trigger] self.presets@[p].mask@[k] <==> (self.presets@[p].implied@.contains(
                ref_at(k as nat, self.n_flags()),
            ) || exists|e: int|
                0 <= e < self.presets@[p].extends@.len()
                    && self.presets@[self.presets@[p].extends@[e] as int].mask@[k]))
    }

    /// `bits` is the full layout for the flag values `vals`: flag bits copy
    /// `vals`, and each predicate bit is the conjunction of its terms' bits.
    pub open spec fn consistent(&self, vals: Seq<bool>, bits: Seq<bool>) -> bool {
        &&& bits.len() == self.bit_count()
        &&& forall|i: int| 0 <= i < self.n_flags() ==> #[trigger] bits[i] == vals[i]
        &&& forall|j: int|
            0 <= j < self.n_preds() ==> #[trigger] bits[self.n_flags() + j] == (forall|k: int|
                0 <= k < self.predicates@[j].terms@.len() ==> #[trigger] ref_value(
                    bits,
                    self.predicates@[j].terms@[k],
                    self.n_flags(),
                ))
    }

    /// The number of bits in the layout.
    pub fn bit_count_exec(&self) -> (r: usize)
        requires
            self.wf(),
        ensures
            r == self.bit_count(),
    {
        self.flags.len() + self.predicates.len()
    }

    /// The bit that flag or predicate `r` occupies.
    pub fn bit_index(&self, r: SettingRef) -> (b: usize)
        requires
            self.wf(),
            ref_in(r, self.n_flags(), self.n_preds()),
        ensures
            b == bit_of(r, self.n_flags()),
    {
        match r {
            SettingRef::Flag(i) => i,
            SettingRef::Predicate(j) => self.flags.len() + j,
        }
    }

    /// The default value of every flag, in declaration order.
    pub fn default_values(&self) -> (r: Vec<bool>)
        ensures
            r@.len() == self.n_flags(),
            forall|i: int| 0 <= i < self.n_flags() ==> #[trigger] r@[i] == self.flags@[i].default,
    {
        let mut r: Vec<bool> = Vec::new();
        let mut i: usize = 0;
        while i < self.flags.len()
            invariant
                i <= self.flags@.len(),
                r@.len() == i,
                forall|k: int| 0 <= k < i ==> #[trigger] r@[k] == self.flags@[k].default,
            decreases self.flags@.len() - i,
        {
            r.push(self.flags[i].default);
            i = i + 1;
        }
        r
    }

    /// Flag values after preset `p` forces its flags on.
    pub fn apply_preset(&self, p: usize, vals: &Vec<bool>) -> (r: Vec<bool>)
        requires
            self.wf(),
            p < self.presets@.len(),
            vals@.len() == self.n_flags(),
        ensures
            r@.len() == self.n_flags(),
            forall|i: int|
                0 <= i < self.n_flags() ==> #[trigger] r@[i] == (vals@[i]
                    || self.presets@[p as int].mask@[i]),
    {
        let mask = &self.presets[p].mask;
        let mut r: Vec<bool> = Vec::new();
        let mut i: usize = 0;
        while i < vals.len()
            invariant
                self.wf(),
                p < self.presets@.len(),
                mask == self.presets@[p as int].mask,
                vals@.len() == self.n_flags(),
                i <= vals@.len(),
                r@.len() == i,
                forall|k: int| 0 <= k < i ==> #[trigger] r@[k] == (vals@[k] || mask@[k]),
            decreases vals@.len() - i,
        {
            assert(mask@.len() == self.bit_count());
            r.push(vals[i] || mask[i]);
            i = i + 1;
        }
        r
    }

    /// Computes the full layout for the flag values `vals`: the flags, then
    /// every predicate evaluated in declaration order.
    pub fn evaluate(&self, vals: &Vec<bool>) -> (r: Vec<bool>)
        requires
            self.wf(),
            vals@.len() == self.n_flags(),
        ensures
            self.consistent(vals@, r@),
    {
        let n_flags = self.flags.len();
        let mut bits = copy_vec(vals);
        let mut j: usize = 0;
        while j < self.predicates.len()
            invariant
                self.wf(),
                n_flags == self.n_flags(),
                vals@.len() == n_flags,
                j <= self.n_preds(),
                bits@.len() == n_flags + j,
                forall|i: int| 0 <= i < n_flags ==> #[trigger] bits@[i] == vals@[i],
                forall|q: int|
                    0 <= q < j ==> #[trigger] bits@[n_flags + q] == (forall|k: int|
                        0 <= k < self.predicates@[q].terms@.len() ==> #[trigger] ref_value(
                            bits@,
                            self.predicates@[q].terms@[k],
                            n_flags as nat,
                        )),
            decreases self.n_preds() - j,
        {
            let terms = &self.predicates[j].terms;
            let mut v = true;
            let mut k: usize = 0;
            while k < terms.len()
                invariant
                    self.wf(),
                    n_flags == self.n_flags(),
                    j < self.n_preds(),
                    terms == self.predicates@[j as int].terms,
                    bits@.len() == n_flags + j,
                    k <= terms@.len(),
                    v == (forall|i: int|
                        0 <= i < k ==> #[trigger] ref_value(bits@, terms@[i], n_flags as nat)),
                decreases terms@.len() - k,
            {
                assert(term_ok(terms@[k as int], n_flags as nat, j as int));
                let b: usize = match terms[k] {
                    SettingRef::Flag(i) => i,
                    SettingRef::Predicate(q) => n_flags + q,
                };
                if !bits[b] {
                    v = false;
                }
                assert(v == (forall|i: int|
                    0 <= i < k + 1 ==> #[trigger] ref_value(bits@, terms@[i], n_flags as nat))) by {
                    if !v {
                        if !ref_value(bits@, terms@[k as int], n_flags as nat) {
                        } else {
                            let i = choose|i: int|
                                0 <= i < k && !ref_value(bits@, terms@[i], n_flags as nat);
                            assert(0 <= i < k + 1 && !ref_value(bits@, terms@[i], n_flags as nat));
                        }
                    }
                }
                k = k + 1;
            }
            let ghost old_bits = bits@;
            bits.push(v);
            assert forall|q: int|
                0 <= q < j + 1 implies #[trigger] bits@[n_flags + q] == (forall|k: int|
                    0 <= k < self.predicates@[q].terms@.len() ==> #[trigger] ref_value(
                        bits@,
                        self.predicates@[q].terms@[k],
                        n_flags as nat,
                    )) by {
                assert forall|k: int| 0 <= k < self.predicates@[q].terms@.len() implies ref_value(
                    bits@,
                    self.predicates@[q].terms@[k],
                    n_flags as nat,
                ) == ref_value(old_bits, self.predicates@[q].terms@[k], n_flags as nat) by {
                    assert(term_ok(self.predicates@[q].terms@[k], n_flags as nat, q));
                }
                if q < j {
                    assert(bits@[n_flags + q] == old_bits[n_flags + q]);
                }
            }
            j = j + 1;
        }
        bits
    }
}

/// Bit layout: flag `i` occupies bit `i` and predicate `j` occupies bit
/// `flag count + j`; the layout is a one-to-one map between the declared flags
/// and predicates and the bits `0 .. bit_count`.
pub proof fn lemma_bit_layout(g: &SettingGroup)
    requires
        g.wf(),
    ensures
        forall|i: usize| i < g.n_flags() ==> #[trigger] bit_of(SettingRef::Flag(i), g.n_flags()) == i,
        forall|j: usize|
            j < g.n_preds() ==> #[trigger] bit_of(SettingRef::Predicate(j), g.n_flags()) == g.n_flags() + j,
        forall|r: SettingRef|
            ref_in(r, g.n_flags(), g.n_preds()) ==> #[trigger] bit_of(r, g.n_flags()) < g.bit_count()
                && ref_at(bit_of(r, g.n_flags()), g.n_flags()) == r,
        forall|k: nat|
            k < g.bit_count() ==> ref_in(#[trigger] ref_at(k, g.n_flags()), g.n_flags(), g.n_preds())
                && bit_of(ref_at(k, g.n_flags()), g.n_flags()) == k,
{
}

/// A preset's mask is the union of the bits of its own items with the masks
/// of every preset it extends.
pub proof fn lemma_preset_mask_union(g: &SettingGroup, p: int, k: int)
    requires
        g.wf(),
        0 <= p < g.presets@.len(),
        0 <= k < g.bit_count(),
    ensures
        g.presets@[p].mask@[k] <==> (g.presets@[p].implied@.contains(ref_at(k as nat, g.n_flags()))
            || exists|e: int|
            0 <= e < g.presets@[p].extends@.len() && g.presets@[g.presets@[p].extends@[e] as int].mask@[k]),
{
}

/// Two presets with the same own items and the same extended presets, as
/// sets, have the same mask: naming an extended preset twice, or in another
/// order, changes nothing.
pub proof fn lemma_preset_mask_by_sets(g: &SettingGroup, p: int, q: int)
    requires
        g.wf(),
        0 <= p < g.presets@.len(),
        0 <= q < g.presets@.len(),
        g.presets@[p].implied@.to_set() == g.presets@[q].implied@.to_set(),
        g.presets@[p].extends@.to_set() == g.presets@[q].extends@.to_set(),
    ensures
        g.presets@[p].mask@ == g.presets@[q].mask@,
{
    let a = g.presets@[p];
    let b = g.presets@[q];
    assert forall|k: int| 0 <= k < g.bit_count() implies a.mask@[k] == b.mask@[k] by {
        let x = ref_at(k as nat, g.n_flags());
        assert(a.implied@.contains(x) == a.implied@.to_set().contains(x));
        assert(b.implied@.contains(x) == b.implied@.to_set().contains(x));
        if exists|e: int| 0 <= e < a.extends@.len() && g.presets@[a.extends@[e] as int].mask@[k] {
            let e = choose|e: int| 0 <= e < a.extends@.len() && g.presets@[a.extends@[e] as int].mask@[k];
            assert(a.extends@.to_set().contains(a.extends@[e]));
            assert(b.extends@.contains(a.extends@[e]));
        }
        if exists|e: int| 0 <= e < b.extends@.len() && g.presets@[b.extends@[e] as int].mask@[k] {
            let e = choose|e: int| 0 <= e < b.extends@.len() && g.presets@[b.extends@[e] as int].mask@[k];
            assert(b.extends@.to_set().contains(b.extends@[e]));
            assert(a.extends@.contains(b.extends@[e]));
        }
    }
    assert(a.mask@ =~= b.mask@);
}

} // verus!
