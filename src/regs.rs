//! Register banks and the forest of register classes over their units.
use vstd::prelude::*;

verus! {

/// Why a register declaration was refused.
#[derive(Clone, Copy, Debug, PartialEq, Eq, Structural)]
pub enum RegsError {
    /// The class name is already used by another class.
    DuplicateName,
    /// The bank or parent class has not been declared.
    UndeclaredReference,
    /// A subclass range is not contained in its parent's range.
    RangeOutOfBounds,
    /// The explicit register names do not match the bank's unit count.
    LengthMismatch,
    /// A bank has no top-level class, or more than one.
    TopLevelMismatch,
}

/// A physically distinct pool of `units` registers.
#[derive(Clone, Debug)]
pub struct RegBank {
    pub name: String,
    pub units: u32,
    pub names: Option<Vec<String>>,
    pub track_pressure: bool,
}

/// An allocatable contiguous range `[start, start + count)` of a bank's units.
/// A top-level class has no parent and spans its whole bank.
#[derive(Clone, Debug)]
pub struct RegClass {
    pub name: String,
    pub bank: usize,
    pub start: u32,
    pub count: u32,
    pub parent: Option<usize>,
}

/// The staging area of a register layout.
#[derive(Debug)]
pub struct IsaRegsBuilder {
    pub banks: Vec<RegBank>,
    pub classes: Vec<RegClass>,
}

/// The finished register layout.
#[derive(Clone, Debug)]
pub struct IsaRegs {
    pub banks: Vec<RegBank>,
    pub classes: Vec<RegClass>,
}

/// Every class lies in a declared bank; a top-level class spans its bank; a
/// subclass has an earlier parent in the same bank whose range contains it.
pub open spec fn classes_wf(banks: Seq<RegBank>, classes: Seq<RegClass>) -> bool {
    forall|c: int|
        0 <= c < classes.len() ==> {
            let cl = #[trigger] classes[c];
            &&& cl.bank < banks.len()
            &&& cl.start + cl.count <= banks[cl.bank as int].units
            &&& match cl.parent {
                None => cl.start == 0 && cl.count == banks[cl.bank as int].units,
                Some(p) => {
                    &&& p < c
                    &&& classes[p as int].bank == cl.bank
                    &&& classes[p as int].start <= cl.start
                    &&& cl.start + cl.count <= classes[p as int].start + classes[p as int].count
                },
            }
        }
}

/// An explicit name list has one name per unit.
pub open spec fn banks_wf(banks: Seq<RegBank>) -> bool {
    forall|b: int|
        0 <= b < banks.len() && (#[trigger] banks[b]).names is Some ==> banks[b].names->Some_0@.len()
            == banks[b].units
}

/// No two classes share a name.
pub open spec fn class_names_unique(classes: Seq<RegClass>) -> bool {
    forall|i: int, j: int|
        0 <= i < classes.len() && 0 <= j < classes.len() && (#[trigger] classes[i]).name@ == (
        #[trigger] classes[j]).name@ ==> i == j
}

/// Class `c` is a top-level class of bank `b`.
pub open spec fn is_toplevel_of(classes: Seq<RegClass>, c: int, b: int) -> bool {
    0 <= c < classes.len() && classes[c].parent is None && classes[c].bank == b
}

/// Bank `b` has exactly one top-level class.
pub open spec fn one_toplevel(classes: Seq<RegClass>, b: int) -> bool {
    &&& exists|c: int| is_toplevel_of(classes, c, b)
    &&& forall|c1: int, c2: int|
        is_toplevel_of(classes, c1, b) && is_toplevel_of(classes, c2, b) ==> c1 == c2
}

/// The range check of a subclass declaration.
pub open spec fn range_within(parent: RegClass, start: u32, count: u32) -> bool {
    parent.start <= start && start + count <= parent.start + parent.count
}

impl IsaRegsBuilder {
    pub open spec fn wf(&self) -> bool {
        &&& classes_wf(self.banks@, self.classes@)
        &&& banks_wf(self.banks@)
        &&& class_names_unique(self.classes@)
    }

    pub open spec fn class_name_taken(&self, n: Seq<char>) -> bool {
        exists|i: int| 0 <= i < self.classes@.len() && self.classes@[i].name@ == n
    }

    pub fn new() -> (r: IsaRegsBuilder)
        ensures
            r.wf(),
            r.banks@.len() == 0,
            r.classes@.len() == 0,
    {
        IsaRegsBuilder { banks: Vec::new(), classes: Vec::new() }
    }

    fn is_class_name_taken(&self, n: &String) -> (r: bool)
        ensures
            r == self.class_name_taken(n@),
    {
        let mut i: usize = 0;
        while i < self.classes.len()
            invariant
                i <= self.classes@.len(),
                forall|k: int| 0 <= k < i ==> self.classes@[k].name@ != n@,
            decreases self.classes@.len() - i,
        {
            if self.classes[i].name == *n {
                return true;
            }
            i = i + 1;
        }
        false
    }

    /// Declares a bank of `units` registers, optionally with one name per unit.
    pub fn add_bank(&mut self, name: &str, units: u32, names: Option<Vec<String>>, track_pressure: bool) -> (r:
        Result<usize, RegsError>)
        requires
            old(self).wf(),
            units > 0,
        ensures
            final(self).wf(),
            r is Err <==> (names is Some && names->Some_0@.len() != units),
            r is Err ==> r == Err::<usize, RegsError>(RegsError::LengthMismatch) && *final(self)
                == *old(self),
            r is Ok ==> {
                &&& r == Ok::<usize, RegsError>(old(self).banks@.len() as usize)
                &&& final(self).banks@.len() == old(self).banks@.len() + 1
                &&& final(self).banks@.subrange(0, old(self).banks@.len() as int) == old(self).banks@
                &&& final(self).banks@.last().name@ == name@
                &&& final(self).banks@.last().units == units
                &&& final(self).banks@.last().names == names
                &&& final(self).banks@.last().track_pressure == track_pressure
                &&& final(self).classes == old(self).classes
            },
    {
        match &names {
            Some(v) => {
                if v.len() != units as usize {
                    return Err(RegsError::LengthMismatch);
                }
            },
            None => {},
        }
        let index = self.banks.len();
        self.banks.push(RegBank { name: String::from_str(name), units, names, track_pressure });
        assert(self.banks@.subrange(0, index as int) =~= old(self).banks@);
        assert forall|c: int| 0 <= c < self.classes@.len() implies #[trigger] self.classes@[c].bank
            < self.banks@.len() && self.banks@[self.classes@[c].bank as int] == old(
            self,
        ).banks@[self.classes@[c].bank as int] by {
            assert(old(self).classes@[c].bank < old(self).banks@.len());
        }
        assert forall|b: int|
            0 <= b < self.banks@.len() && (#[trigger] self.banks@[b]).names is Some implies self.banks@[b].names->Some_0@.len()
                == self.banks@[b].units by {
            if b < index {
                assert(self.banks@[b] == old(self).banks@[b]);
            }
        }
        Ok(index)
    }

    /// Declares the top-level class of `bank`, spanning all of its units.
    pub fn add_toplevel_class(&mut self, name: &str, bank: usize) -> (r: Result<usize, RegsError>)
        requires
            old(self).wf(),
        ensures
            final(self).wf(),
            bank >= old(self).banks@.len() ==> r == Err::<usize, RegsError>(
                RegsError::UndeclaredReference,
            ),
            bank < old(self).banks@.len() && old(self).class_name_taken(name@) ==> r == Err::<
                usize,
                RegsError,
            >(RegsError::DuplicateName),
            r is Ok <==> bank < old(self).banks@.len() && !old(self).class_name_taken(name@),
            r is Err ==> *final(self) == *old(self),
            r is Ok ==> {
                &&& r == Ok::<usize, RegsError>(old(self).classes@.len() as usize)
                &&& final(self).classes@.len() == old(self).classes@.len() + 1
                &&& final(self).classes@.subrange(0, old(self).classes@.len() as int)
                    == old(self).classes@
                &&& final(self).classes@.last().name@ == name@
                &&& final(self).classes@.last().bank == bank
                &&& final(self).classes@.last().start == 0
                &&& final(self).classes@.last().count == old(self).banks@[bank as int].units
                &&& final(self).classes@.last().parent is None
                &&& final(self).banks == old(self).banks
            },
    {
        if bank >= self.banks.len() {
            return Err(RegsError::UndeclaredReference);
        }
        let n = String::from_str(name);
        if self.is_class_name_taken(&n) {
            return Err(RegsError::DuplicateName);
        }
        let index = self.classes.len();
        let units = self.banks[bank].units;
        self.classes.push(RegClass { name: n, bank, start: 0, count: units, parent: None });
        assert(self.classes@.subrange(0, index as int) =~= old(self).classes@);
        assert forall|c: int| 0 <= c < index implies #[trigger] self.classes@[c] == old(
            self,
        ).classes@[c] by {}
        assert forall|i: int, j: int|
            0 <= i < self.classes@.len() && 0 <= j < self.classes@.len() && (
            #[trigger] self.classes@[i]).name@ == (#[trigger] self.classes@[j]).name@ implies i
                == j by {
            if i == index && j < index {
                assert(old(self).classes@[j].name@ == name@);
            }
            if j == index && i < index {
                assert(old(self).classes@[i].name@ == name@);
            }
        }
        Ok(index)
    }

    /// Declares a subclass of `parent` covering `[start, start + count)` of
    /// the bank, which must lie within the parent's own range.
    pub fn add_subclass(&mut self, name: &str, parent: usize, start: u32, count: u32) -> (r: Result<
        usize,
        RegsError,
    >)
        requires
            old(self).wf(),
        ensures
            final(self).wf(),
            parent >= old(self).classes@.len() ==> r == Err::<usize, RegsError>(
                RegsError::UndeclaredReference,
            ),
            parent < old(self).classes@.len() && !range_within(
                old(self).classes@[parent as int],
                start,
                count,
            ) ==> r == Err::<usize, RegsError>(RegsError::RangeOutOfBounds),
            parent < old(self).classes@.len() && range_within(
                old(self).classes@[parent as int],
                start,
                count,
            ) && old(self).class_name_taken(name@) ==> r == Err::<usize, RegsError>(
                RegsError::DuplicateName,
            ),
            r is Ok <==> parent < old(self).classes@.len() && range_within(
                old(self).classes@[parent as int],
                start,
                count,
            ) && !old(self).class_name_taken(name@),
            r is Err ==> *final(self) == *old(self),
            r is Ok ==> {
                &&& r == Ok::<usize, RegsError>(old(self).classes@.len() as usize)
                &&& final(self).classes@.len() == old(self).classes@.len() + 1
                &&& final(self).classes@.subrange(0, old(self).classes@.len() as int)
                    == old(self).classes@
                &&& final(self).classes@.last().name@ == name@
                &&& final(self).classes@.last().bank == old(self).classes@[parent as int].bank
                &&& final(self).classes@.last().start == start
                &&& final(self).classes@.last().count == count
                &&& final(self).classes@.last().parent == Some(parent)
                &&& final(self).banks == old(self).banks
            },
    {
        if parent >= self.classes.len() {
            return Err(RegsError::UndeclaredReference);
        }
        let p_start = self.classes[parent].start as u64;
        let p_count = self.classes[parent].count as u64;
        if (start as u64) < p_start || (start as u64) + (count as u64) > p_start + p_count {
            return Err(RegsError::RangeOutOfBounds);
        }
        let n = String::from_str(name);
        if self.is_class_name_taken(&n) {
            return Err(RegsError::DuplicateName);
        }
        let index = self.classes.len();
        let bank = self.classes[parent].bank;
        assert(self.classes@[parent as int].start + self.classes@[parent as int].count
            <= self.banks@[bank as int].units);
        self.classes.push(RegClass { name: n, bank, start, count, parent: Some(parent) });
        assert(self.classes@.subrange(0, index as int) =~= old(self).classes@);
        assert forall|c: int| 0 <= c < index implies #[trigger] self.classes@[c] == old(
            self,
        ).classes@[c] by {}
        assert forall|i: int, j: int|
            0 <= i < self.classes@.len() && 0 <= j < self.classes@.len() && (
            #[trigger] self.classes@[i]).name@ == (#[trigger] self.classes@[j]).name@ implies i
                == j by {
            if i == index && j < index {
                assert(old(self).classes@[j].name@ == name@);
            }
            if j == index && i < index {
                assert(old(self).classes@[i].name@ == name@);
            }
        }
        Ok(index)
    }

    /// Checks that every bank has exactly one top-level class and returns
    /// the finished layout.
    pub fn finish(self) -> (r: Result<IsaRegs, RegsError>)
        requires
            self.wf(),
        ensures
            r is Ok <==> (forall|b: int| 0 <= b < self.banks@.len() ==> one_toplevel(self.classes@, b)),
            r is Err ==> r == Err::<IsaRegs, RegsError>(RegsError::TopLevelMismatch),
            r is Ok ==> r->Ok_0.banks == self.banks && r->Ok_0.classes == self.classes && r->Ok_0.wf(),
    {
        let mut b: usize = 0;
        while b < self.banks.len()
            invariant
                b <= self.banks@.len(),
                forall|q: int| 0 <= q < b ==> one_toplevel(self.classes@, q),
            decreases self.banks@.len() - b,
        {
            let mut found: Option<usize> = None;
            let mut c: usize = 0;
            while c < self.classes.len()
                invariant
                    b < self.banks@.len(),
                    c <= self.classes@.len(),
                    match found {
                        None => forall|i: int| 0 <= i < c ==> !is_toplevel_of(self.classes@, i, b as int),
                        Some(f) => f < c && is_toplevel_of(self.classes@, f as int, b as int)
                            && forall|i: int| 0 <= i < c && i != f ==> !is_toplevel_of(self.classes@, i, b as int),
                    },
                decreases self.classes@.len() - c,
            {
                if self.classes[c].parent.is_none() && self.classes[c].bank == b {
                    if found.is_some() {
                        assert(is_toplevel_of(self.classes@, found->Some_0 as int, b as int));
                        assert(is_toplevel_of(self.classes@, c as int, b as int));
                        assert(!one_toplevel(self.classes@, b as int));
                        return Err(RegsError::TopLevelMismatch);
                    }
                    found = Some(c);
                }
                c = c + 1;
            }
            if found.is_none() {
                assert(!one_toplevel(self.classes@, b as int));
                return Err(RegsError::TopLevelMismatch);
            }
            b = b + 1;
        }
        Ok(IsaRegs { banks: self.banks, classes: self.classes })
    }
}

impl IsaRegs {
    /// Classes form a forest over the banks, with one root per bank.
    pub open spec fn wf(&self) -> bool {
        &&& classes_wf(self.banks@, self.classes@)
        &&& banks_wf(self.banks@)
        &&& class_names_unique(self.classes@)
        &&& forall|b: int| 0 <= b < self.banks@.len() ==> one_toplevel(self.classes@, b)
    }

    /// The parent of class `c`, or `None` for a top-level class.
    pub fn parent(&self, c: usize) -> (r: Option<usize>)
        requires
            c < self.classes@.len(),
        ensures
            r == self.classes@[c as int].parent,
    {
        self.classes[c].parent
    }

    /// The bank and unit range `[start, start + count)` of class `c`.
    pub fn class_range(&self, c: usize) -> (r: (usize, u32, u32))
        requires
            c < self.classes@.len(),
        ensures
            r == (self.classes@[c as int].bank, self.classes@[c as int].start, self.classes@[c as int].count),
    {
        (self.classes[c].bank, self.classes[c].start, self.classes[c].count)
    }

    /// The top-level class of bank `b`.
    pub fn toplevel_class(&self, b: usize) -> (r: usize)
        requires
            self.wf(),
            b < self.banks@.len(),
        ensures
            is_toplevel_of(self.classes@, r as int, b as int),
    {
        let mut c: usize = 0;
        while c < self.classes.len()
            invariant
                self.wf(),
                b < self.banks@.len(),
                c <= self.classes@.len(),
                forall|i: int| 0 <= i < c ==> !is_toplevel_of(self.classes@, i, b as int),
            decreases self.classes@.len() - c,
        {
            if self.classes[c].parent.is_none() && self.classes[c].bank == b {
                return c;
            }
            c = c + 1;
        }
        proof {
            assert(one_toplevel(self.classes@, b as int));
            let w = choose|w: int| is_toplevel_of(self.classes@, w, b as int);
            assert(!is_toplevel_of(self.classes@, w, b as int));
        }
        0
    }
}

} // verus!
