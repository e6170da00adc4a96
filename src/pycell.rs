//! Instances of a class chain: the per-class contents blocks, borrowing
//! through any class of the chain, guards, and teardown.
use crate::flag::{BorrowFlag, PyBorrowError, PyBorrowMutError, HAS_MUTABLE_BORROW, UNUSED};
use crate::info::{frozen_flags, frozen_of, PyClassInfo};
use crate::mutability::{
    checker_owner, classify, first_mutable, lemma_one_checker_per_chain, resolve_checker, tags_of,
    ClassMutability, ExtendsMutableAncestor, ImmutableClass, MutableClass, PyClassMutability,
};
use crate::slots::{DictSlot, ThreadChecker, ThreadSafetyError};
use crate::weakref::{cleared_from, listed, PyWeakRef, PyWeakReference, WeakRefList, WeakRefTable};
use std::mem::ManuallyDrop;
use vstd::prelude::*;

verus! {

/// The borrow operations of a checker.
pub trait PyClassBorrowChecker: Sized {
    /// The flag the checker records; the stateless checker always reads unused.
    spec fn flag(&self) -> BorrowFlag;

    /// Whether the checker counts borrows at all.
    spec fn counts() -> bool;

    /// A checker with no borrow held.
    fn new() -> (r: Self)
        ensures
            r.flag().is_unused(),
    ;

    /// Takes a shared borrow if no exclusive one is held.
    fn try_borrow(&mut self) -> (r: Result<(), PyBorrowError>)
        ensures
            Self::counts() ==> (r is Ok <==> old(self).flag().admits_shared()),
            Self::counts() && r is Ok ==> final(self).flag() == old(self).flag().spec_incremented(),
            Self::counts() && r is Err ==> final(self).flag() == old(self).flag(),
            !Self::counts() ==> r is Ok && final(self).flag() == old(self).flag(),
    ;

    /// Whether a shared borrow would be granted, without taking one.
    fn try_borrow_unguarded(&self) -> (r: Result<(), PyBorrowError>)
        ensures
            r is Ok <==> !self.flag().is_exclusive(),
    ;

    /// Releases a shared borrow.
    fn release_borrow(&mut self)
        requires
            Self::counts() ==> old(self).flag().shared() >= 1,
        ensures
            Self::counts() ==> final(self).flag() == old(self).flag().spec_decremented(),
            !Self::counts() ==> final(self).flag() == old(self).flag(),
    ;

    /// Takes the exclusive borrow if no borrow at all is held.
    fn try_borrow_mut(&mut self) -> (r: Result<(), PyBorrowMutError>)
        requires
            Self::counts(),
        ensures
            r is Ok <==> old(self).flag().is_unused(),
            r is Ok ==> final(self).flag() == BorrowFlag(HAS_MUTABLE_BORROW),
            r is Err ==> final(self).flag() == old(self).flag(),
    ;

    /// Releases the exclusive borrow.
    fn release_borrow_mut(&mut self)
        requires
            Self::counts(),
            old(self).flag().is_exclusive(),
        ensures
            final(self).flag().is_unused(),
    ;
}

/// The checker of classes with no mutable ancestor: it holds no state, grants
/// every shared borrow and offers no exclusive one.
pub struct EmptySlot(());

/// The checker that counts borrows of one mutable chain.
pub struct BorrowChecker(BorrowFlag);

impl PyClassBorrowChecker for EmptySlot {
    open spec fn flag(&self) -> BorrowFlag {
        BorrowFlag(UNUSED)
    }

    open spec fn counts() -> bool {
        false
    }

    fn new() -> (r: Self) {
        EmptySlot(())
    }

    fn try_borrow(&mut self) -> (r: Result<(), PyBorrowError>) {
        Ok(())
    }

    fn try_borrow_unguarded(&self) -> (r: Result<(), PyBorrowError>) {
        Ok(())
    }

    fn release_borrow(&mut self) {
    }

    fn try_borrow_mut(&mut self) -> (r: Result<(), PyBorrowMutError>) {
        Err(PyBorrowMutError::new())
    }

    fn release_borrow_mut(&mut self) {
    }
}

impl PyClassBorrowChecker for BorrowChecker {
    closed spec fn flag(&self) -> BorrowFlag {
        self.0
    }

    open spec fn counts() -> bool {
        true
    }

    fn new() -> (r: Self) {
        BorrowChecker(BorrowFlag::unused())
    }

    fn try_borrow(&mut self) -> (r: Result<(), PyBorrowError>) {
        match self.0.increment() {
            Ok(f) => {
                self.0 = f;
                Ok(())
            },
            Err(e) => Err(e),
        }
    }

    fn try_borrow_unguarded(&self) -> (r: Result<(), PyBorrowError>) {
        if self.0.is_exclusive_flag() {
            Err(PyBorrowError::new())
        } else {
            Ok(())
        }
    }

    fn release_borrow(&mut self) {
        self.0 = self.0.decrement();
    }

    fn try_borrow_mut(&mut self) -> (r: Result<(), PyBorrowMutError>) {
        match self.0.acquire_mut() {
            Ok(f) => {
                self.0 = f;
                Ok(())
            },
            Err(e) => Err(e),
        }
    }

    fn release_borrow_mut(&mut self) {
        self.0 = self.0.release_mut();
    }
}


/// The host-native type at the root of a class chain.
#[derive(Debug, Clone, Copy, PartialEq, Eq, Structural)]
pub enum NativeBase {
    /// The host's plain object type: its memory is freed directly.
    Object,
    /// A native type with a deallocator of its own, which runs last.
    WithDealloc,
    /// A native type without a deallocator: its memory is freed directly.
    WithoutDealloc,
}

/// One step of an instance's teardown, most-derived class first.
#[derive(Debug, Clone, Copy, PartialEq, Eq, Structural)]
pub enum TeardownEvent {
    /// The value of class `l` was destroyed.
    DropValue(usize),
    /// The value of class `l` was leaked: its destructor may not run from the
    /// tearing-down context.
    SkipDrop(usize),
    /// The dictionary slot of class `l` was cleared.
    ClearDict(usize),
    /// The weak-reference slot of class `l` was cleared.
    ClearWeak(usize),
    /// The host's generic free released the memory.
    FreeMemory,
    /// The native base's own deallocator ran.
    BaseDealloc,
}

/// The host-native base part of an instance.
#[derive(Debug, Clone, Copy, PartialEq, Eq, Structural)]
pub struct PyCellBase {
    pub native: NativeBase,
}

/// The contents block of one class of an instance.
pub(crate) struct PyCellContents<T> {
    value: Option<T>,
    borrow_checker: Option<BorrowChecker>,
    thread_checker: ThreadChecker,
    dict: DictSlot,
    weakref: WeakRefList,
}

/// An instance of a chain of classes (index 0 is the class next to the
/// native base, the last is the most-derived), with one contents block per
/// class and the checker stored by the chain's first mutable class.
pub struct PyCell<T> {
    ob_base: PyCellBase,
    object: u64,
    frozen: Ghost<Seq<bool>>,
    tags: Vec<ClassMutability>,
    contents: Vec<PyCellContents<T>>,
}

/// A shared borrow of an instance, taken through class `level`.
pub struct PyRef {
    level: usize,
}

/// The exclusive borrow of an instance, taken through class `level`.
pub struct PyRefMut {
    level: usize,
}

impl PyRef {
    pub closed spec fn spec_level(&self) -> nat {
        self.level as nat
    }

    /// The class through which the borrow was taken.
    pub fn level(&self) -> (r: usize)
        ensures
            r == self.spec_level(),
    {
        self.level
    }
}

impl PyRefMut {
    pub closed spec fn spec_level(&self) -> nat {
        self.level as nat
    }

    /// The class through which the borrow was taken.
    pub fn level(&self) -> (r: usize)
        ensures
            r == self.spec_level(),
    {
        self.level
    }
}

impl<T> PyCell<T> {
    /// Number of classes in the chain.
    pub closed spec fn len(&self) -> nat {
        self.contents@.len()
    }

    /// The `frozen` declarations of the chain, base first.
    pub closed spec fn frozen(&self) -> Seq<bool> {
        self.frozen@
    }

    /// The tags of the chain, base first.
    pub open spec fn tags(&self) -> Seq<ClassMutability> {
        tags_of(self.frozen())
    }

    pub closed spec fn base(&self) -> PyCellBase {
        self.ob_base
    }

    /// The flag stored in class `k`'s block (unused where it stores none).
    pub closed spec fn stored_flag(&self, k: int) -> BorrowFlag {
        match self.contents@[k].borrow_checker {
            Some(c) => c.flag(),
            None => BorrowFlag(UNUSED),
        }
    }

    /// The flags stored per class.
    pub open spec fn flags(&self) -> Seq<BorrowFlag> {
        Seq::new(self.len(), |k: int| self.stored_flag(k))
    }

    /// The flag of the checker that governs borrows through class `level`.
    pub open spec fn governing_flag(&self, level: int) -> BorrowFlag {
        match checker_owner(self.tags(), level) {
            Some(k) => self.flags()[k],
            None => BorrowFlag(UNUSED),
        }
    }

    /// The wrapped value of class `k`.
    pub closed spec fn value(&self, k: int) -> T {
        self.contents@[k].value->Some_0
    }

    /// The wrapped values, base first.
    pub open spec fn values(&self) -> Seq<T> {
        Seq::new(self.len(), |k: int| self.value(k))
    }

    /// The thread-affinity guard of class `k`.
    pub closed spec fn thread_checker(&self, k: int) -> ThreadChecker {
        self.contents@[k].thread_checker
    }

    /// The dictionary slot of class `k`.
    pub closed spec fn dict(&self, k: int) -> DictSlot {
        self.contents@[k].dict
    }

    /// The host object id of the instance.
    pub closed spec fn object_id(&self) -> u64 {
        self.object
    }

    /// Indices of the weak-reference objects listed by class `k`.
    pub closed spec fn weakrefs(&self, k: int) -> Seq<usize> {
        self.contents@[k].weakref.view_refs()
    }

    /// The weak-reference lists of the chain, base first.
    pub open spec fn weak_lists(&self) -> Seq<Seq<usize>> {
        Seq::new(self.len(), |k: int| self.weakrefs(k))
    }

    /// Whether class `k` has a weak-reference slot.
    pub closed spec fn has_weakref_slot(&self, k: int) -> bool {
        self.contents@[k].weakref.spec_present()
    }

    pub closed spec fn wf(&self) -> bool {
        &&& self.contents@.len() >= 1
        &&& self.frozen@.len() == self.contents@.len()
        &&& self.tags@ == tags_of(self.frozen@)
        &&& forall|k: int|
            0 <= k < self.contents@.len() ==> (#[trigger] self.contents@[k]).value is Some && (
            self.contents@[k].borrow_checker is Some <==> k == first_mutable(self.frozen@))
    }

    /// Same chain, values and slots; only the stored flags may differ.
    pub open spec fn same_but_flags(&self, other: &PyCell<T>) -> bool {
        &&& self.same_slots(other)
        &&& self.values() == other.values()
    }

    /// Same chain and slots; values and stored flags may differ.
    pub open spec fn same_slots(&self, other: &PyCell<T>) -> bool {
        &&& self.len() == other.len()
        &&& self.frozen() == other.frozen()
        &&& self.base() == other.base()
        &&& self.object_id() == other.object_id()
        &&& forall|k: int|
            0 <= k < self.len() ==> #[trigger] self.thread_checker(k) == other.thread_checker(k)
                && self.dict(k) == other.dict(k) && self.weakrefs(k) == other.weakrefs(k)
                && self.has_weakref_slot(k) == other.has_weakref_slot(k)
    }

    /// The stored flags after a shared borrow through `level`.
    pub open spec fn flags_after_borrow(&self, level: int) -> Seq<BorrowFlag> {
        match checker_owner(self.tags(), level) {
            Some(k) => self.flags().update(k, self.flags()[k].spec_incremented()),
            None => self.flags(),
        }
    }

    /// The stored flags after a shared borrow through `level` is released.
    pub open spec fn flags_after_release(&self, level: int) -> Seq<BorrowFlag> {
        match checker_owner(self.tags(), level) {
            Some(k) => self.flags().update(k, self.flags()[k].spec_decremented()),
            None => self.flags(),
        }
    }

    /// The stored flags with the checker governing `level` set to `f`.
    pub open spec fn flags_with(&self, level: int, f: BorrowFlag) -> Seq<BorrowFlag> {
        match checker_owner(self.tags(), level) {
            Some(k) => self.flags().update(k, f),
            None => self.flags(),
        }
    }
}

impl<T> PyCell<T> {
    /// Whether a shared borrow through `level` is held (always, where the
    /// stateless checker governs).
    pub open spec fn shared_held(&self, level: int) -> bool {
        checker_owner(self.tags(), level) is None || self.governing_flag(level).shared() >= 1
    }

    proof fn lemma_owner(&self, level: int)
        requires
            self.wf(),
            0 <= level < self.len(),
        ensures
            checker_owner(self.tags(), level) is Some ==> checker_owner(self.tags(), level)->Some_0
                == first_mutable(self.frozen()) && first_mutable(self.frozen()) < self.len()
                && self.contents@[first_mutable(self.frozen())].borrow_checker is Some,
            self.tags()[level].spec_has_checker() <==> checker_owner(self.tags(), level) is Some,
            self.tags() == self.tags@,
            0 <= first_mutable(self.frozen()) <= self.len(),
    {
        lemma_one_checker_per_chain(self.frozen@, level);
        if checker_owner(self.tags(), level) is Some {
            let k = first_mutable(self.frozen@);
            assert(self.contents@[k].borrow_checker is Some);
        }
    }

    /// The shape of a well-formed instance: at least one class, and one
    /// declaration and one tag per class.
    pub proof fn lemma_shape(&self)
        requires
            self.wf(),
        ensures
            self.len() >= 1,
            self.frozen().len() == self.len(),
            self.tags().len() == self.len(),
            self.flags().len() == self.len(),
            self.values().len() == self.len(),
    {
    }

    proof fn lemma_governing_after(&self, other: &PyCell<T>, level: int, f: BorrowFlag)
        requires
            self.wf(),
            0 <= level < self.len(),
            self.tags()[level].spec_has_checker(),
            other.frozen() == self.frozen(),
            other.flags() == self.flags_with(level, f),
        ensures
            other.governing_flag(level) == f,
    {
        self.lemma_owner(level);
        let k = first_mutable(self.frozen());
        assert(checker_owner(self.tags(), level) == Some(k));
        assert(0 <= k < self.len());
        assert(self.flags_with(level, f) == self.flags().update(k, f));
        assert(other.flags()[k] == f);
        assert(other.tags() == self.tags());
    }

    proof fn lemma_value_at(&self, other: &PyCell<T>, level: int)
        requires
            0 <= level < self.len(),
            self.len() == other.len(),
            self.values() == other.values(),
        ensures
            self.value(level) == other.value(level),
    {
        assert(self.values()[level] == self.value(level));
        assert(other.values()[level] == other.value(level));
        assert(self.values()[level] == other.values()[level]);
    }

    /// An instance of the chain `classes` (base first) over the native base
    /// `ob_base`, holding `values`, created by context `thread`.
    pub fn new(
        ob_base: PyCellBase,
        classes: &Vec<PyClassInfo>,
        values: Vec<T>,
        object: u64,
        thread: u64,
    ) -> (r: PyCell<T>)
        requires
            classes@.len() >= 1,
            values@.len() == classes@.len(),
        ensures
            r.wf(),
            r.len() == classes@.len(),
            r.frozen() == frozen_of(classes@),
            r.base() == ob_base,
            r.object_id() == object,
            r.values() == values@,
            forall|k: int| 0 <= k < r.len() ==> (#[trigger] r.flags()[k]).is_unused(),
            forall|k: int|
                0 <= k < r.len() ==> (#[trigger] r.thread_checker(k)).spec_unsendable()
                    == classes@[k].unsendable && r.thread_checker(k).spec_owner() == thread,
            forall|k: int|
                0 <= k < r.len() ==> (#[trigger] r.dict(k)).spec_present() == classes@[k].dict
                    && r.dict(k).spec_dict() is None,
            forall|k: int|
                0 <= k < r.len() ==> #[trigger] r.has_weakref_slot(k) == classes@[k].weakref
                    && r.weakrefs(k).len() == 0,
    {
        let frozen = frozen_flags(classes);
        let tags = classify(&frozen);
        let mut vals = values;
        let mut contents: Vec<PyCellContents<T>> = Vec::new();
        let mut i: usize = 0;
        while i < classes.len()
            invariant
                i <= classes@.len(),
                frozen@ == frozen_of(classes@),
                tags@ == tags_of(frozen@),
                vals@ == values@.subrange(i as int, values@.len() as int),
                values@.len() == classes@.len(),
                contents@.len() == i,
                forall|k: int|
                    0 <= k < i ==> (#[trigger] contents@[k]).value == Some(values@[k]) && (
                    contents@[k].borrow_checker is Some <==> k == first_mutable(frozen@)) && (
                    contents@[k].borrow_checker is Some ==> contents@[k].borrow_checker->Some_0.flag().is_unused())
                        && contents@[k].thread_checker.spec_unsendable() == classes@[k].unsendable
                        && contents@[k].thread_checker.spec_owner() == thread
                        && contents@[k].dict.spec_present() == classes@[k].dict
                        && contents@[k].dict.spec_dict() is None
                        && contents@[k].weakref.spec_present() == classes@[k].weakref
                        && contents@[k].weakref.view_refs().len() == 0,
            decreases classes@.len() - i,
        {
            let v = vals.remove(0);
            let info = classes[i];
            let borrow_checker = if tags[i].owns_checker() {
                Some(BorrowChecker::new())
            } else {
                None
            };
            contents.push(
                PyCellContents {
                    value: Some(v),
                    borrow_checker,
                    thread_checker: ThreadChecker::new(info.unsendable, thread),
                    dict: DictSlot::new(info.dict),
                    weakref: WeakRefList::new(info.weakref),
                },
            );
            i = i + 1;
        }
        let r = PyCell { ob_base, object, frozen: Ghost(frozen@), tags, contents };
        assert(r.values() =~= values@);
        r
    }

    /// Number of classes in the chain.
    pub fn chain_len(&self) -> (r: usize)
        ensures
            r == self.len(),
    {
        self.contents.len()
    }

    /// Takes a shared borrow through class `level`; fails while an exclusive
    /// borrow is held on the checker that governs it.
    pub fn try_borrow(&mut self, level: usize) -> (r: Result<PyRef, PyBorrowError>)
        requires
            old(self).wf(),
            level < old(self).len(),
        ensures
            final(self).wf(),
            final(self).same_but_flags(old(self)),
            r is Ok <==> old(self).governing_flag(level as int).admits_shared(),
            r is Ok ==> r->Ok_0.spec_level() == level && final(self).flags() == old(
                self,
            ).flags_after_borrow(level as int),
            r is Err ==> final(self).flags() == old(self).flags(),
    {
        proof {
            self.lemma_owner(level as int);
        }
        match resolve_checker(&self.tags, level) {
            None => {
                let mut empty = EmptySlot::new();
                match empty.try_borrow() {
                    Ok(()) => Ok(PyRef { level }),
                    Err(e) => Err(e),
                }
            },
            Some(k) => {
                let ghost before = self.contents@;
                let r = match &mut self.contents[k].borrow_checker {
                    Some(c) => match c.try_borrow() {
                        Ok(()) => Ok(PyRef { level }),
                        Err(e) => Err(e),
                    },
                    None => Err(PyBorrowError::new()),
                };
                assert(self.flags() =~= if r is Ok {
                    old(self).flags_after_borrow(level as int)
                } else {
                    old(self).flags()
                });
                assert(self.values() =~= old(self).values());
                r
            },
        }
    }
}

impl<T> PyCell<T> {
    /// Releases a shared borrow taken through `guard`'s class.
    pub fn release_borrow(&mut self, guard: PyRef)
        requires
            old(self).wf(),
            guard.spec_level() < old(self).len(),
            old(self).shared_held(guard.spec_level() as int),
        ensures
            final(self).wf(),
            final(self).same_but_flags(old(self)),
            final(self).flags() == old(self).flags_after_release(guard.spec_level() as int),
    {
        let level = guard.level;
        proof {
            self.lemma_owner(level as int);
        }
        match resolve_checker(&self.tags, level) {
            None => {
                let mut empty = EmptySlot::new();
                empty.release_borrow();
            },
            Some(k) => {
                match &mut self.contents[k].borrow_checker {
                    Some(c) => c.release_borrow(),
                    None => {},
                }
                assert(self.flags() =~= old(self).flags_after_release(level as int));
                assert(self.values() =~= old(self).values());
            },
        }
    }

    /// Takes the exclusive borrow through class `level`; fails while any
    /// borrow is held on the checker that governs it.
    pub fn try_borrow_mut(&mut self, level: usize) -> (r: Result<PyRefMut, PyBorrowMutError>)
        requires
            old(self).wf(),
            level < old(self).len(),
            old(self).tags()[level as int].spec_allows_mut(),
        ensures
            final(self).wf(),
            final(self).same_but_flags(old(self)),
            r is Ok <==> old(self).governing_flag(level as int).is_unused(),
            r is Ok ==> r->Ok_0.spec_level() == level && final(self).flags() == old(
                self,
            ).flags_with(level as int, BorrowFlag(HAS_MUTABLE_BORROW)),
            r is Err ==> final(self).flags() == old(self).flags(),
    {
        proof {
            self.lemma_owner(level as int);
        }
        match resolve_checker(&self.tags, level) {
            None => Err(PyBorrowMutError::new()),
            Some(k) => {
                let r = match &mut self.contents[k].borrow_checker {
                    Some(c) => match c.try_borrow_mut() {
                        Ok(()) => Ok(PyRefMut { level }),
                        Err(e) => Err(e),
                    },
                    None => Err(PyBorrowMutError::new()),
                };
                assert(self.flags() =~= if r is Ok {
                    old(self).flags_with(level as int, BorrowFlag(HAS_MUTABLE_BORROW))
                } else {
                    old(self).flags()
                });
                assert(self.values() =~= old(self).values());
                r
            },
        }
    }

    /// Releases the exclusive borrow taken through `guard`'s class.
    pub fn release_borrow_mut(&mut self, guard: PyRefMut)
        requires
            old(self).wf(),
            guard.spec_level() < old(self).len(),
            old(self).tags()[guard.spec_level() as int].spec_has_checker(),
            old(self).governing_flag(guard.spec_level() as int).is_exclusive(),
        ensures
            final(self).wf(),
            final(self).same_but_flags(old(self)),
            final(self).flags() == old(self).flags_with(
                guard.spec_level() as int,
                BorrowFlag(UNUSED),
            ),
    {
        let level = guard.level;
        proof {
            self.lemma_owner(level as int);
        }
        match resolve_checker(&self.tags, level) {
            None => {},
            Some(k) => {
                match &mut self.contents[k].borrow_checker {
                    Some(c) => c.release_borrow_mut(),
                    None => {},
                }
                assert(self.flags() =~= old(self).flags_with(level as int, BorrowFlag(UNUSED)));
                assert(self.values() =~= old(self).values());
            },
        }
    }

    /// Takes a shared borrow through class `level`, which must be free of an
    /// exclusive borrow.
    pub fn borrow(&mut self, level: usize) -> (r: PyRef)
        requires
            old(self).wf(),
            level < old(self).len(),
            old(self).governing_flag(level as int).admits_shared(),
        ensures
            final(self).wf(),
            final(self).same_but_flags(old(self)),
            r.spec_level() == level,
            final(self).flags() == old(self).flags_after_borrow(level as int),
    {
        match self.try_borrow(level) {
            Ok(r) => r,
            Err(_) => PyRef { level },
        }
    }

    /// Takes the exclusive borrow through class `level`, which must be free
    /// of any borrow.
    pub fn borrow_mut(&mut self, level: usize) -> (r: PyRefMut)
        requires
            old(self).wf(),
            level < old(self).len(),
            old(self).tags()[level as int].spec_allows_mut(),
            old(self).governing_flag(level as int).is_unused(),
        ensures
            final(self).wf(),
            final(self).same_but_flags(old(self)),
            r.spec_level() == level,
            final(self).flags() == old(self).flags_with(
                level as int,
                BorrowFlag(HAS_MUTABLE_BORROW),
            ),
    {
        match self.try_borrow_mut(level) {
            Ok(r) => r,
            Err(_) => PyRefMut { level },
        }
    }

    /// The value of class `level` if no exclusive borrow is held, without
    /// taking a borrow.
    pub fn try_borrow_unguarded(&self, level: usize) -> (r: Result<&T, PyBorrowError>)
        requires
            self.wf(),
            level < self.len(),
        ensures
            r is Ok <==> !self.governing_flag(level as int).is_exclusive(),
            r is Ok ==> *r->Ok_0 == self.value(level as int),
    {
        proof {
            self.lemma_owner(level as int);
        }
        let free = match resolve_checker(&self.tags, level) {
            None => EmptySlot::new().try_borrow_unguarded(),
            Some(k) => match &self.contents[k].borrow_checker {
                Some(c) => c.try_borrow_unguarded(),
                None => Err(PyBorrowError::new()),
            },
        };
        match free {
            Ok(()) => Ok(self.contents[level].value.as_ref().unwrap()),
            Err(e) => Err(e),
        }
    }

    /// The value of `guard`'s class, read through the shared borrow.
    pub fn get(&self, guard: &PyRef) -> (r: &T)
        requires
            self.wf(),
            guard.spec_level() < self.len(),
            self.shared_held(guard.spec_level() as int),
        ensures
            *r == self.value(guard.spec_level() as int),
    {
        self.contents[guard.level].value.as_ref().unwrap()
    }

    /// The value of `guard`'s class, read through the exclusive borrow.
    pub fn get_mut_view(&self, guard: &PyRefMut) -> (r: &T)
        requires
            self.wf(),
            guard.spec_level() < self.len(),
            self.governing_flag(guard.spec_level() as int).is_exclusive(),
        ensures
            *r == self.value(guard.spec_level() as int),
    {
        self.contents[guard.level].value.as_ref().unwrap()
    }

    /// Writes `v` as the value of `guard`'s class through the exclusive
    /// borrow; returns the value it replaces.
    pub fn set(&mut self, guard: &PyRefMut, v: T) -> (r: T)
        requires
            old(self).wf(),
            guard.spec_level() < old(self).len(),
            old(self).governing_flag(guard.spec_level() as int).is_exclusive(),
        ensures
            final(self).wf(),
            final(self).same_slots(old(self)),
            final(self).flags() == old(self).flags(),
            final(self).values() == old(self).values().update(guard.spec_level() as int, v),
            r == old(self).value(guard.spec_level() as int),
    {
        let level = guard.level;
        let mut slot = Some(v);
        std::mem::swap(&mut self.contents[level].value, &mut slot);
        assert(self.flags() =~= old(self).flags());
        assert(self.values() =~= old(self).values().update(level as int, v));
        slot.unwrap()
    }

    /// Replaces the value of class `level` with `t`, returning the old one;
    /// no borrow may be held.
    pub fn replace(&mut self, level: usize, t: T) -> (r: T)
        requires
            old(self).wf(),
            level < old(self).len(),
            old(self).tags()[level as int].spec_allows_mut(),
            old(self).governing_flag(level as int).is_unused(),
        ensures
            final(self).wf(),
            final(self).same_slots(old(self)),
            final(self).flags() == old(self).flags(),
            final(self).values() == old(self).values().update(level as int, t),
            r == old(self).value(level as int),
    {
        proof {
            self.lemma_owner(level as int);
        }
        let guard = self.borrow_mut(level);
        proof {
            old(self).lemma_governing_after(self, level as int, BorrowFlag(HAS_MUTABLE_BORROW));
            old(self).lemma_value_at(self, level as int);
        }
        let r = self.set(&guard, t);
        self.release_borrow_mut(guard);
        assert(self.flags() =~= old(self).flags());
        r
    }

    /// Replaces the value of class `level` with `f` of it, returning the old
    /// one; no borrow may be held.
    pub fn replace_with<F: FnOnce(&T) -> T>(&mut self, level: usize, f: F) -> (r: T)
        requires
            old(self).wf(),
            level < old(self).len(),
            old(self).tags()[level as int].spec_allows_mut(),
            old(self).governing_flag(level as int).is_unused(),
            f.requires((&old(self).value(level as int),)),
        ensures
            final(self).wf(),
            final(self).same_slots(old(self)),
            final(self).flags() == old(self).flags(),
            r == old(self).value(level as int),
            f.ensures((&old(self).value(level as int),), final(self).value(level as int)),
            final(self).values() == old(self).values().update(
                level as int,
                final(self).value(level as int),
            ),
    {
        proof {
            self.lemma_owner(level as int);
        }
        let guard = self.borrow_mut(level);
        proof {
            old(self).lemma_governing_after(self, level as int, BorrowFlag(HAS_MUTABLE_BORROW));
            old(self).lemma_value_at(self, level as int);
        }
        let replacement = f(self.get_mut_view(&guard));
        let ghost written = replacement;
        let r = self.set(&guard, replacement);
        self.release_borrow_mut(guard);
        proof {
            assert(self.values()[level as int] == written);
        }
        assert(self.flags() =~= old(self).flags());
        r
    }

    /// Exchanges the values of class `level` of two instances; neither may be
    /// borrowed.
    #[verifier::spinoff_prover]
    pub fn swap(&mut self, other: &mut PyCell<T>, level: usize)
        requires
            old(self).wf(),
            old(other).wf(),
            level < old(self).len(),
            level < old(other).len(),
            old(self).tags()[level as int].spec_allows_mut(),
            old(other).tags()[level as int].spec_allows_mut(),
            old(self).governing_flag(level as int).is_unused(),
            old(other).governing_flag(level as int).is_unused(),
        ensures
            final(self).wf(),
            final(other).wf(),
            final(self).same_slots(old(self)),
            final(other).same_slots(old(other)),
            final(self).flags() == old(self).flags(),
            final(other).flags() == old(other).flags(),
            final(self).values() == old(self).values().update(
                level as int,
                old(other).value(level as int),
            ),
            final(other).values() == old(other).values().update(
                level as int,
                old(self).value(level as int),
            ),
    {
        proof {
            self.lemma_owner(level as int);
            other.lemma_owner(level as int);
        }
        let g1 = self.borrow_mut(level);
        let g2 = other.borrow_mut(level);
        proof {
            old(self).lemma_governing_after(self, level as int, BorrowFlag(HAS_MUTABLE_BORROW));
            old(other).lemma_governing_after(other, level as int, BorrowFlag(HAS_MUTABLE_BORROW));
            old(self).lemma_value_at(self, level as int);
            old(other).lemma_value_at(other, level as int);
        }
        let ghost mid_self = *self;
        let ghost mid_other = *other;
        std::mem::swap(&mut self.contents[level].value, &mut other.contents[level].value);
        let ghost swapped_self = *self;
        let ghost swapped_other = *other;
        self.release_borrow_mut(g1);
        other.release_borrow_mut(g2);
        proof {
            lemma_same_slots_trans(old(self), &mid_self, &swapped_self);
            lemma_same_slots_trans(old(self), &swapped_self, self);
            lemma_same_slots_trans(old(other), &mid_other, &swapped_other);
            lemma_same_slots_trans(old(other), &swapped_other, other);
        }
        assert(self.flags() =~= old(self).flags());
        assert(other.flags() =~= old(other).flags());
        assert(self.values() =~= old(self).values().update(level as int, old(other).value(level as int)));
        assert(other.values() =~= old(other).values().update(level as int, old(self).value(level as int)));
    }
}

impl<T> PyCell<T> {
    /// Makes a weak reference to the instance in `weakrefs`, listed by the
    /// weak-reference slot of class `level`; `None`, with nothing made, where
    /// that class has no such slot.
    pub fn add_weakref(&mut self, level: usize, weakrefs: &mut WeakRefTable, callback: Option<u64>) -> (r:
        Option<PyWeakRef>)
        requires
            old(self).wf(),
            level < old(self).len(),
        ensures
            final(self).wf(),
            final(self).len() == old(self).len(),
            final(self).frozen() == old(self).frozen(),
            final(self).base() == old(self).base(),
            final(self).object_id() == old(self).object_id(),
            final(self).values() == old(self).values(),
            final(self).flags() == old(self).flags(),
            forall|k: int|
                0 <= k < old(self).len() ==> #[trigger] final(self).thread_checker(k) == old(
                    self,
                ).thread_checker(k) && final(self).dict(k) == old(self).dict(k)
                    && final(self).has_weakref_slot(k) == old(self).has_weakref_slot(k) && (k
                    != level ==> final(self).weakrefs(k) == old(self).weakrefs(k)),
            old(self).has_weakref_slot(level as int) ==> r is Some && r->Some_0.spec_index() == old(
                weakrefs,
            ).records().len() && final(weakrefs).records() == old(weakrefs).records().push(
                PyWeakReference::new_spec(old(self).object_id(), callback),
            ) && final(self).weakrefs(level as int) == old(self).weakrefs(level as int).push(
                old(weakrefs).records().len() as usize,
            ),
            !old(self).has_weakref_slot(level as int) ==> r is None && final(weakrefs).records()
                == old(weakrefs).records() && final(self).weakrefs(level as int) == old(
                self,
            ).weakrefs(level as int),
    {
        let object = self.object;
        let r = self.contents[level].weakref.add(weakrefs, object, callback);
        assert(self.flags() =~= old(self).flags());
        assert(self.values() =~= old(self).values());
        r
    }
}

impl PyRef {
    /// The same shared borrow, seen through the base class of the class it
    /// was taken through; both must be governed by the same checker.
    pub fn into_super<T>(self, cell: &PyCell<T>) -> (r: PyRef)
        requires
            cell.wf(),
            0 < self.spec_level() < cell.len(),
            checker_owner(cell.tags(), self.spec_level() - 1) == checker_owner(
                cell.tags(),
                self.spec_level() as int,
            ),
        ensures
            r.spec_level() == self.spec_level() - 1,
            cell.governing_flag(r.spec_level() as int) == cell.governing_flag(
                self.spec_level() as int,
            ),
    {
        PyRef { level: self.level - 1 }
    }
}

impl PyRefMut {
    /// The same exclusive borrow, seen through the base class of the class
    /// it was taken through; the base must not be frozen.
    pub fn into_super<T>(self, cell: &PyCell<T>) -> (r: PyRefMut)
        requires
            cell.wf(),
            0 < self.spec_level() < cell.len(),
            cell.tags()[self.spec_level() - 1].spec_allows_mut(),
        ensures
            r.spec_level() == self.spec_level() - 1,
            cell.governing_flag(r.spec_level() as int) == cell.governing_flag(
                self.spec_level() as int,
            ),
            cell.tags()[r.spec_level() as int].spec_has_checker(),
    {
        proof {
            cell.lemma_owner(self.level as int);
            cell.lemma_owner(self.level - 1);
        }
        PyRefMut { level: self.level - 1 }
    }
}

/// The three teardown steps of class `l`: its value is destroyed, or leaked
/// where `drop` is false, then its dictionary and weak-reference slots are
/// cleared.
pub open spec fn level_events(l: int, drop: bool) -> Seq<TeardownEvent> {
    seq![
        if drop {
            TeardownEvent::DropValue(l as usize)
        } else {
            TeardownEvent::SkipDrop(l as usize)
        },
        TeardownEvent::ClearDict(l as usize),
        TeardownEvent::ClearWeak(l as usize),
    ]
}

/// The teardown steps of classes `guards.len() - 1` down to `i`, where
/// `guards` are their thread-affinity guards and `thread` tears down.
pub open spec fn levels_events(guards: Seq<ThreadChecker>, thread: u64, i: int) -> Seq<
    TeardownEvent,
>
    decreases guards.len() - i,
{
    if i < 0 || i >= guards.len() {
        seq![]
    } else {
        levels_events(guards, thread, i + 1) + level_events(i, guards[i].allows(thread))
    }
}

/// Whether weak-reference object `j` is listed by one of the layers `from`
/// and above of `lists`.
pub open spec fn listed_in_levels(lists: Seq<Seq<usize>>, from: int, j: int) -> bool {
    exists|k: int| from <= k < lists.len() && 0 <= k && #[trigger] listed(lists[k], lists[k].len() as int, j)
}

proof fn lemma_listed_in_levels_step(lists: Seq<Seq<usize>>, l: int, j: int)
    requires
        0 <= l < lists.len(),
    ensures
        listed_in_levels(lists, l, j) <==> (listed(lists[l], lists[l].len() as int, j)
            || listed_in_levels(lists, l + 1, j)),
{
    if listed_in_levels(lists, l, j) {
        let k = choose|k: int| l <= k < lists.len() && 0 <= k && #[trigger] listed(lists[k], lists[k].len() as int, j);
        if k != l {
            assert(listed_in_levels(lists, l + 1, j));
        }
    }
    if listed(lists[l], lists[l].len() as int, j) {
        assert(listed_in_levels(lists, l, j));
    }
    if listed_in_levels(lists, l + 1, j) {
        let k = choose|k: int| l + 1 <= k < lists.len() && 0 <= k && #[trigger] listed(lists[k], lists[k].len() as int, j);
        assert(listed_in_levels(lists, l, j));
    }
}

/// The last teardown step, which the native base decides.
pub open spec fn base_event(native: NativeBase) -> TeardownEvent {
    match native {
        NativeBase::WithDealloc => TeardownEvent::BaseDealloc,
        _ => TeardownEvent::FreeMemory,
    }
}

/// Thread checks and teardown of one layer of an instance and the layers
/// below it.
pub trait PyCellLayout: Sized {
    spec fn layout_wf(&self) -> bool;

    /// Whether context `thread` may use every layer.
    spec fn threadsafe(&self, thread: u64) -> bool;

    /// The teardown steps run from context `thread`.
    spec fn teardown(&self, thread: u64) -> Seq<TeardownEvent>;

    /// Every weak-reference object listed names one of a table of `n`.
    spec fn weakrefs_within(&self, n: int) -> bool;

    /// Whether weak-reference object `j` is listed by some layer.
    spec fn lists_weakref(&self, j: int) -> bool;

    /// The non-panicking thread check.
    fn check_threadsafe(&self, thread: u64) -> (r: Result<(), ThreadSafetyError>)
        requires
            self.layout_wf(),
        ensures
            r is Ok <==> self.threadsafe(thread),
    ;

    /// Tears the instance down from context `thread`, this layer first and
    /// the native base last; returns the steps taken, in order. Every weak
    /// reference listed in `weakrefs` then reads "no object"; other weak
    /// references are untouched.
    fn tp_dealloc(self, thread: u64, weakrefs: &mut WeakRefTable) -> (r: Vec<TeardownEvent>)
        requires
            self.layout_wf(),
            self.weakrefs_within(old(weakrefs).records().len() as int),
        ensures
            r@ == self.teardown(thread),
            final(weakrefs).records().len() == old(weakrefs).records().len(),
            forall|j: int|
                0 <= j < old(weakrefs).records().len() ==> if self.lists_weakref(j) {
                    cleared_from(old(weakrefs).records()[j], final(weakrefs).records()[j])
                } else {
                    final(weakrefs).records()[j] == old(weakrefs).records()[j]
                },
    ;
}

impl PyCellLayout for PyCellBase {
    open spec fn layout_wf(&self) -> bool {
        true
    }

    open spec fn threadsafe(&self, thread: u64) -> bool {
        true
    }

    open spec fn teardown(&self, thread: u64) -> Seq<TeardownEvent> {
        seq![base_event(self.native)]
    }

    open spec fn weakrefs_within(&self, n: int) -> bool {
        true
    }

    open spec fn lists_weakref(&self, j: int) -> bool {
        false
    }

    fn check_threadsafe(&self, thread: u64) -> (r: Result<(), ThreadSafetyError>) {
        Ok(())
    }

    fn tp_dealloc(self, thread: u64, weakrefs: &mut WeakRefTable) -> (r: Vec<TeardownEvent>) {
        let event = match self.native {
            NativeBase::WithDealloc => TeardownEvent::BaseDealloc,
            _ => TeardownEvent::FreeMemory,
        };
        let mut r: Vec<TeardownEvent> = Vec::new();
        r.push(event);
        assert(r@ =~= seq![base_event(self.native)]);
        r
    }
}

impl<T> PyCell<T> {
    /// The thread-affinity guards of the chain, base first.
    pub open spec fn thread_checkers(&self) -> Seq<ThreadChecker> {
        Seq::new(self.len(), |k: int| self.thread_checker(k))
    }
}

impl<T> PyCellLayout for PyCell<T> {
    open spec fn layout_wf(&self) -> bool {
        self.wf()
    }

    open spec fn threadsafe(&self, thread: u64) -> bool {
        forall|k: int| 0 <= k < self.len() ==> (#[trigger] self.thread_checker(k)).allows(thread)
    }

    open spec fn teardown(&self, thread: u64) -> Seq<TeardownEvent> {
        levels_events(self.thread_checkers(), thread, 0) + self.base().teardown(thread)
    }

    open spec fn weakrefs_within(&self, n: int) -> bool {
        forall|k: int, i: int|
            0 <= k < self.len() && 0 <= i < self.weakrefs(k).len() ==> #[trigger] self.weakrefs(
                k,
            )[i] < n
    }

    open spec fn lists_weakref(&self, j: int) -> bool {
        listed_in_levels(self.weak_lists(), 0, j)
    }

    fn check_threadsafe(&self, thread: u64) -> (r: Result<(), ThreadSafetyError>) {
        let mut i: usize = self.contents.len();
        while i > 0
            invariant
                i <= self.contents@.len(),
                forall|k: int| i <= k < self.len() ==> (#[trigger] self.thread_checker(k)).allows(thread),
            decreases i,
        {
            match self.contents[i - 1].thread_checker.check_threadsafe(thread) {
                Ok(()) => {},
                Err(e) => {
                    assert(!self.thread_checker(i - 1).allows(thread));
                    return Err(e);
                },
            }
            i = i - 1;
        }
        self.ob_base.check_threadsafe(thread)
    }

    fn tp_dealloc(self, thread: u64, weakrefs: &mut WeakRefTable) -> (r: Vec<TeardownEvent>) {
        let ghost guards = self.thread_checkers();
        let ghost lists = self.weak_lists();
        let ghost before = weakrefs.records();
        let PyCell { ob_base, object, frozen, tags, contents } = self;
        let mut contents = contents;
        let mut out: Vec<TeardownEvent> = Vec::new();
        assert(guards.len() == contents@.len());
        assert(levels_events(guards, thread, guards.len() as int) =~= seq![]);
        while contents.len() > 0
            invariant
                guards.len() >= contents@.len(),
                lists.len() == guards.len(),
                forall|k: int| 0 <= k < contents@.len() ==> #[trigger] guards[k] == contents@[k].thread_checker,
                forall|k: int| 0 <= k < contents@.len() ==> #[trigger] lists[k] == contents@[k].weakref.view_refs(),
                forall|k: int, i: int|
                    0 <= k < lists.len() && 0 <= i < lists[k].len() ==> #[trigger] lists[k][i] < before.len(),
                out@ == levels_events(guards, thread, contents@.len() as int),
                weakrefs.records().len() == before.len(),
                forall|j: int|
                    0 <= j < before.len() ==> if listed_in_levels(lists, contents@.len() as int, j) {
                        cleared_from(before[j], weakrefs.records()[j])
                    } else {
                        weakrefs.records()[j] == before[j]
                    },
            decreases contents@.len(),
        {
            let l: usize = contents.len() - 1;
            let c = contents.pop().unwrap();
            let PyCellContents { value, borrow_checker, thread_checker, dict, weakref } = c;
            let mut dict = dict;
            let mut weakref = weakref;
            if thread_checker.can_drop(thread) {
                {
                    let _dropped = value;
                }
                out.push(TeardownEvent::DropValue(l));
            } else {
                let _leaked = ManuallyDrop::new(value);
                out.push(TeardownEvent::SkipDrop(l));
            }
            let _ = dict.clear_dict();
            out.push(TeardownEvent::ClearDict(l));
            let ghost mid = weakrefs.records();
            assert(weakref.within(before.len() as int)) by {
                assert forall|i: int| 0 <= i < weakref.view_refs().len() implies #[trigger] weakref.view_refs()[i] < before.len() by {
                    assert(lists[l as int][i] < before.len());
                }
            }
            weakref.clear_weakrefs(weakrefs);
            out.push(TeardownEvent::ClearWeak(l));
            assert(out@ =~= levels_events(guards, thread, l as int));
            assert forall|j: int| 0 <= j < before.len() implies if listed_in_levels(lists, l as int, j) {
                cleared_from(before[j], weakrefs.records()[j])
            } else {
                weakrefs.records()[j] == before[j]
            } by {
                lemma_listed_in_levels_step(lists, l as int, j);
                if listed(lists[l as int], lists[l as int].len() as int, j) {
                    if listed_in_levels(lists, l + 1, j) {
                        assert(cleared_from(before[j], mid[j]));
                    }
                }
            }
        }
        let mut tail = ob_base.tp_dealloc(thread, weakrefs);
        out.append(&mut tail);
        out
    }
}

proof fn lemma_same_slots_trans<T>(a: &PyCell<T>, b: &PyCell<T>, c: &PyCell<T>)
    requires
        b.same_slots(a),
        c.same_slots(b),
    ensures
        c.same_slots(a),
{
    assert forall|k: int| 0 <= k < c.len() implies #[trigger] c.thread_checker(k) == a.thread_checker(k)
        && c.dict(k) == a.dict(k) && c.weakrefs(k) == a.weakrefs(k) && c.has_weakref_slot(k)
        == a.has_weakref_slot(k) by {
        assert(b.thread_checker(k) == a.thread_checker(k));
        assert(c.thread_checker(k) == b.thread_checker(k));
    }
}

/// All classes of an instance that use a counting checker (the first
/// mutable class and every class below it in the chain, frozen or not) are
/// governed by one and the same flag.
pub proof fn lemma_chain_shares_flag<T>(cell: &PyCell<T>, i: int, j: int)
    requires
        cell.wf(),
        0 <= i < cell.len(),
        0 <= j < cell.len(),
        cell.tags()[i].spec_has_checker(),
        cell.tags()[j].spec_has_checker(),
    ensures
        cell.governing_flag(i) == cell.governing_flag(j),
{
    cell.lemma_owner(i);
    cell.lemma_owner(j);
}

/// While an exclusive borrow taken through any class of an instance is
/// held, shared and exclusive borrows through every class with a counting
/// checker are refused.
pub proof fn lemma_exclusive_excludes_chain<T>(cell: &PyCell<T>, held: int, j: int)
    requires
        cell.wf(),
        0 <= held < cell.len(),
        0 <= j < cell.len(),
        cell.tags()[held].spec_has_checker(),
        cell.tags()[j].spec_has_checker(),
        cell.governing_flag(held).is_exclusive(),
    ensures
        !cell.governing_flag(j).admits_shared(),
        !cell.governing_flag(j).is_unused(),
{
    lemma_chain_shares_flag(cell, held, j);
}

/// Releasing an exclusive borrow taken through class `held` leaves every
/// class with a counting checker free for shared and exclusive borrows.
pub proof fn lemma_release_frees_chain<T>(before: &PyCell<T>, after: &PyCell<T>, held: int, j: int)
    requires
        before.wf(),
        0 <= held < before.len(),
        0 <= j < before.len(),
        before.tags()[held].spec_has_checker(),
        before.tags()[j].spec_has_checker(),
        after.same_but_flags(before),
        after.flags() == before.flags_with(held, BorrowFlag(UNUSED)),
    ensures
        after.governing_flag(j).is_unused(),
        after.governing_flag(j).admits_shared(),
{
    before.lemma_governing_after(after, held, BorrowFlag(UNUSED));
    before.lemma_owner(held);
    before.lemma_owner(j);
}

/// A frozen class that extends a mutable one is governed by the same flag
/// as its mutable ancestors: its shared borrows succeed while no exclusive
/// borrow is held anywhere on the chain, and an exclusive borrow through
/// the mutable base refuses them.
pub proof fn lemma_frozen_child_shares_checker<T>(cell: &PyCell<T>, base: int, frozen_child: int)
    requires
        cell.wf(),
        0 <= base < frozen_child < cell.len(),
        cell.tags()[base].spec_allows_mut(),
        cell.tags()[frozen_child] == (ClassMutability::ExtendsMutableAncestor { frozen: true }),
    ensures
        cell.governing_flag(frozen_child) == cell.governing_flag(base),
        cell.governing_flag(base).is_exclusive() ==> !cell.governing_flag(
            frozen_child,
        ).admits_shared(),
        !cell.governing_flag(frozen_child).is_exclusive() && cell.governing_flag(
            frozen_child,
        ).shared() < crate::flag::MAX_SHARED ==> cell.governing_flag(frozen_child).admits_shared(),
        cell.flags_after_borrow(frozen_child) == cell.flags_after_borrow(base),
        cell.flags_after_release(frozen_child) == cell.flags_after_release(base),
{
    lemma_chain_shares_flag(cell, base, frozen_child);
    cell.lemma_owner(base);
    cell.lemma_owner(frozen_child);
}

/// Finding the checker that governs a class, by the class's tag as a type.
pub trait GetBorrowChecker: PyClassMutability {
    /// Index of the class of `cell` whose storage holds the checker that
    /// class `level` uses; `None` for the stateless checker.
    fn borrow_checker<T>(cell: &PyCell<T>, level: usize) -> (r: Option<usize>)
        requires
            cell.wf(),
            level < cell.len(),
            cell.tags()[level as int] == Self::spec_tag(),
        ensures
            r is Some <==> checker_owner(cell.tags(), level as int) is Some,
            r is Some ==> checker_owner(cell.tags(), level as int) == Some(r->Some_0 as int),
    ;
}

impl GetBorrowChecker for MutableClass {
    /// The class stores its own checker.
    fn borrow_checker<T>(cell: &PyCell<T>, level: usize) -> (r: Option<usize>) {
        Some(level)
    }
}

impl GetBorrowChecker for ImmutableClass {
    /// The class uses the stateless checker.
    fn borrow_checker<T>(cell: &PyCell<T>, level: usize) -> (r: Option<usize>) {
        None
    }
}

impl<M: PyClassMutability> GetBorrowChecker for ExtendsMutableAncestor<M> {
    /// The checker is found below, in the base class's layer.
    fn borrow_checker<T>(cell: &PyCell<T>, level: usize) -> (r: Option<usize>) {
        proof {
            cell.lemma_owner(level as int);
        }
        if level == 0 {
            None
        } else {
            resolve_checker(&cell.tags, level - 1)
        }
    }
}

/// Tearing down any instance runs, first, the three steps of its
/// most-derived class (its value dropped or, from a context that may not,
/// leaked; its dictionary cleared; its weak references cleared), and last
/// the native base's step; in all, three steps per class and one more.
pub proof fn lemma_teardown_shape<T>(cell: &PyCell<T>, thread: u64)
    requires
        cell.wf(),
    ensures
        cell.teardown(thread).len() == 3 * cell.len() + 1,
        cell.teardown(thread).subrange(0, 3) == level_events(
            cell.len() - 1,
            cell.thread_checker(cell.len() - 1).allows(thread),
        ),
        cell.teardown(thread).last() == base_event(cell.base().native),
{
    let g = cell.thread_checkers();
    let n = cell.len() as int;
    lemma_levels_events_len(g, thread, 0);
    assert(levels_events(g, thread, n) =~= seq![]);
    assert(levels_events(g, thread, n - 1) =~= level_events(n - 1, g[n - 1].allows(thread)));
    lemma_prefix_from(g, thread, 0);
    assert(cell.teardown(thread).subrange(0, 3) =~= levels_events(g, thread, 0).subrange(0, 3));
}

proof fn lemma_levels_events_len(g: Seq<ThreadChecker>, thread: u64, i: int)
    requires
        0 <= i <= g.len(),
    ensures
        levels_events(g, thread, i).len() == 3 * (g.len() - i),
    decreases g.len() - i,
{
    if i < g.len() {
        lemma_levels_events_len(g, thread, i + 1);
    }
}

proof fn lemma_prefix_from(g: Seq<ThreadChecker>, thread: u64, i: int)
    requires
        0 <= i < g.len(),
    ensures
        levels_events(g, thread, i).subrange(0, 3) == level_events(
            g.len() - 1,
            g[g.len() - 1].allows(thread),
        ),
        levels_events(g, thread, i).len() >= 3,
    decreases g.len() - i,
{
    let n = g.len() as int;
    lemma_levels_events_len(g, thread, i);
    if i == n - 1 {
        assert(levels_events(g, thread, n) =~= seq![]);
        assert(levels_events(g, thread, i) =~= level_events(n - 1, g[n - 1].allows(thread)));
    } else {
        lemma_prefix_from(g, thread, i + 1);
        let rest = levels_events(g, thread, i + 1);
        assert(levels_events(g, thread, i) == rest + level_events(i, g[i].allows(thread)));
        assert(levels_events(g, thread, i).subrange(0, 3) =~= rest.subrange(0, 3));
    }
}

/// Tearing down an instance of a three-class chain `Base -> Mid -> Leaf`
/// over the host's plain object type, from a context that may drop every
/// value, runs exactly: Leaf's value drop, dictionary clear and weak clear,
/// then Mid's, then Base's, then the host's generic free.
pub proof fn lemma_teardown_order_three_classes<T>(cell: &PyCell<T>, thread: u64)
    requires
        cell.wf(),
        cell.len() == 3,
        cell.base().native == NativeBase::Object,
        cell.threadsafe(thread),
    ensures
        cell.teardown(thread) == seq![
            TeardownEvent::DropValue(2),
            TeardownEvent::ClearDict(2),
            TeardownEvent::ClearWeak(2),
            TeardownEvent::DropValue(1),
            TeardownEvent::ClearDict(1),
            TeardownEvent::ClearWeak(1),
            TeardownEvent::DropValue(0),
            TeardownEvent::ClearDict(0),
            TeardownEvent::ClearWeak(0),
            TeardownEvent::FreeMemory,
        ],
{
    let g = cell.thread_checkers();
    assert(g[0].allows(thread) && g[1].allows(thread) && g[2].allows(thread)) by {
        assert(g[0] == cell.thread_checker(0));
        assert(g[1] == cell.thread_checker(1));
        assert(g[2] == cell.thread_checker(2));
    }
    assert(levels_events(g, thread, 3) == Seq::<TeardownEvent>::empty());
    assert(levels_events(g, thread, 2) =~= level_events(2, true));
    assert(levels_events(g, thread, 1) =~= level_events(2, true) + level_events(1, true));
    assert(levels_events(g, thread, 0) =~= level_events(2, true) + level_events(1, true)
        + level_events(0, true));
    assert(cell.teardown(thread) =~= seq![
        TeardownEvent::DropValue(2),
        TeardownEvent::ClearDict(2),
        TeardownEvent::ClearWeak(2),
        TeardownEvent::DropValue(1),
        TeardownEvent::ClearDict(1),
        TeardownEvent::ClearWeak(1),
        TeardownEvent::DropValue(0),
        TeardownEvent::ClearDict(0),
        TeardownEvent::ClearWeak(0),
        TeardownEvent::FreeMemory,
    ]);
}

} // verus!
