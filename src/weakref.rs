//! Weak references: the host's weak-reference objects, which outlive their
//! referents, handles to them, and the list of them that an instance's
//! weak-reference slot keeps.
use vstd::prelude::*;

verus! {

/// Object id that stands for the host's `None`.
pub const NONE_OBJECT: u64 = 0;

/// The host's record of one weak reference: its referent while that lives,
/// and the callback to notify when it goes.
#[derive(Debug, Clone, Copy, PartialEq, Eq, Structural)]
pub struct PyWeakReference {
    wr_object: Option<u64>,
    wr_callback: Option<u64>,
}

/// Reading a weak reference.
pub trait PyWeakRefMethods {
    /// The referent, while it lives.
    spec fn referent(&self) -> Option<u64>;

    /// The referent, or `None` once it is gone.
    fn upgrade(&self) -> (r: Option<u64>)
        ensures
            r == self.referent(),
    ;

    /// The referent, or the host's `None` object once it is gone.
    fn get_object(&self) -> (r: u64)
        ensures
            r == match self.referent() {
                Some(o) => o,
                None => NONE_OBJECT,
            },
    ;
}

impl PyWeakReference {
    pub closed spec fn spec_callback(self) -> Option<u64> {
        self.wr_callback
    }

    /// A record for a weak reference to `object`, with an optional callback.
    pub fn new(object: u64, callback: Option<u64>) -> (r: PyWeakReference)
        ensures
            r.referent() == Some(object),
            r.spec_callback() == callback,
    {
        PyWeakReference { wr_object: Some(object), wr_callback: callback }
    }

    /// Marks the referent as gone; returns the callback to notify, if any.
    pub fn clear(&mut self) -> (r: Option<u64>)
        ensures
            final(self).referent() is None,
            final(self).spec_callback() == old(self).spec_callback(),
            r == if old(self).referent() is Some {
                old(self).spec_callback()
            } else {
                None::<u64>
            },
    {
        if self.wr_object.is_some() {
            self.wr_object = None;
            self.wr_callback
        } else {
            None
        }
    }
}

impl PyWeakRefMethods for PyWeakReference {
    closed spec fn referent(&self) -> Option<u64> {
        self.wr_object
    }

    fn upgrade(&self) -> (r: Option<u64>) {
        self.wr_object
    }

    fn get_object(&self) -> (r: u64) {
        match self.wr_object {
            Some(o) => o,
            None => NONE_OBJECT,
        }
    }
}

/// The host's weak-reference objects, by index.
#[derive(Debug)]
pub struct WeakRefTable {
    records: Vec<PyWeakReference>,
}

/// Record `j` was cleared: its referent is gone, its callback kept.
pub open spec fn cleared_from(before: PyWeakReference, after: PyWeakReference) -> bool {
    after.referent() is None && after.spec_callback() == before.spec_callback()
}

impl WeakRefTable {
    pub closed spec fn records(&self) -> Seq<PyWeakReference> {
        self.records@
    }

    /// A table with no weak-reference object.
    pub fn new() -> (r: WeakRefTable)
        ensures
            r.records().len() == 0,
    {
        WeakRefTable { records: Vec::new() }
    }

    /// Number of weak-reference objects.
    pub fn len(&self) -> (r: usize)
        ensures
            r == self.records().len(),
    {
        self.records.len()
    }

    /// The weak-reference object at `i`.
    pub fn record(&self, i: usize) -> (r: PyWeakReference)
        requires
            i < self.records().len(),
        ensures
            r == self.records()[i as int],
    {
        self.records[i]
    }

    fn push(&mut self, record: PyWeakReference) -> (r: usize)
        ensures
            final(self).records() == old(self).records().push(record),
            r == old(self).records().len(),
    {
        let r = self.records.len();
        self.records.push(record);
        r
    }

    fn clear_at(&mut self, i: usize)
        requires
            i < old(self).records().len(),
        ensures
            final(self).records().len() == old(self).records().len(),
            cleared_from(old(self).records()[i as int], final(self).records()[i as int]),
            forall|j: int|
                0 <= j < old(self).records().len() && j != i ==> final(self).records()[j] == old(
                    self,
                ).records()[j],
    {
        let mut rec = self.records[i];
        rec.clear();
        self.records.set(i, rec);
    }
}

/// A weak reference handed to users: it names a weak-reference object of a
/// table and reads its referent there.
#[derive(Debug, Clone, Copy, PartialEq, Eq, Structural)]
pub struct PyWeakRef {
    index: usize,
}

impl PyWeakRef {
    pub closed spec fn spec_index(self) -> int {
        self.index as int
    }

    /// A new weak-reference object in `table` whose referent is `object`.
    pub fn new(table: &mut WeakRefTable, object: u64) -> (r: PyWeakRef)
        ensures
            final(table).records() == old(table).records().push(PyWeakReference::new_spec(object, None)),
            r.spec_index() == old(table).records().len(),
    {
        PyWeakRef { index: table.push(PyWeakReference::new(object, None)) }
    }

    /// A new weak-reference object in `table` whose referent is `object` and
    /// which notifies `callback` when the referent goes.
    pub fn new_with(table: &mut WeakRefTable, object: u64, callback: u64) -> (r: PyWeakRef)
        ensures
            final(table).records() == old(table).records().push(
                PyWeakReference::new_spec(object, Some(callback)),
            ),
            r.spec_index() == old(table).records().len(),
    {
        PyWeakRef { index: table.push(PyWeakReference::new(object, Some(callback))) }
    }

    /// Index of the weak-reference object.
    pub fn index(&self) -> (r: usize)
        ensures
            r == self.spec_index(),
    {
        self.index
    }

    /// The referent, or `None` once it is gone.
    pub fn upgrade(&self, table: &WeakRefTable) -> (r: Option<u64>)
        requires
            self.spec_index() < table.records().len(),
        ensures
            r == table.records()[self.spec_index()].referent(),
    {
        table.records[self.index].upgrade()
    }

    /// The referent, or the host's `None` object once it is gone.
    pub fn get_object(&self, table: &WeakRefTable) -> (r: u64)
        requires
            self.spec_index() < table.records().len(),
        ensures
            r == match table.records()[self.spec_index()].referent() {
                Some(o) => o,
                None => NONE_OBJECT,
            },
    {
        table.records[self.index].get_object()
    }

    /// Like `get_object`, without taking a new reference to the result.
    pub fn get_object_raw(&self, table: &WeakRefTable) -> (r: u64)
        requires
            self.spec_index() < table.records().len(),
        ensures
            r == match table.records()[self.spec_index()].referent() {
                Some(o) => o,
                None => NONE_OBJECT,
            },
    {
        self.get_object(table)
    }
}

impl PyWeakReference {
    /// The record that `new` makes.
    pub closed spec fn new_spec(object: u64, callback: Option<u64>) -> PyWeakReference {
        PyWeakReference { wr_object: Some(object), wr_callback: callback }
    }

    pub proof fn lemma_new_spec(object: u64, callback: Option<u64>)
        ensures
            Self::new_spec(object, callback).referent() == Some(object),
            Self::new_spec(object, callback).spec_callback() == callback,
    {
    }
}

/// Whether record `j` is among the first `n` entries of `refs`.
pub open spec fn listed(refs: Seq<usize>, n: int, j: int) -> bool {
    exists|k: int| 0 <= k < n && refs[k] as int == j
}

/// The weak-reference slot: absent, or the indices of the weak-reference
/// objects that refer to the instance.
#[derive(Debug)]
pub struct WeakRefList {
    present: bool,
    refs: Vec<usize>,
}

impl WeakRefList {
    pub closed spec fn spec_present(&self) -> bool {
        self.present
    }

    pub closed spec fn view_refs(&self) -> Seq<usize> {
        self.refs@
    }

    /// Every listed index names an object of a table of `n` objects.
    pub open spec fn within(&self, n: int) -> bool {
        forall|i: int| 0 <= i < self.view_refs().len() ==> #[trigger] self.view_refs()[i] < n
    }

    /// The slot of a class that opted into weak references or not; empty.
    pub fn new(present: bool) -> (r: WeakRefList)
        ensures
            r.spec_present() == present,
            r.view_refs().len() == 0,
    {
        WeakRefList { present, refs: Vec::new() }
    }

    /// Makes a weak reference to `object` in `table` and lists it; `None`,
    /// with nothing made, where the class has no weak-reference slot.
    pub fn add(&mut self, table: &mut WeakRefTable, object: u64, callback: Option<u64>) -> (r:
        Option<PyWeakRef>)
        ensures
            final(self).spec_present() == old(self).spec_present(),
            old(self).spec_present() ==> r is Some && r->Some_0.spec_index() == old(
                table,
            ).records().len() && final(table).records() == old(table).records().push(
                PyWeakReference::new_spec(object, callback),
            ) && final(self).view_refs() == old(self).view_refs().push(
                old(table).records().len() as usize,
            ),
            !old(self).spec_present() ==> r is None && final(self).view_refs() == old(
                self,
            ).view_refs() && final(table).records() == old(table).records(),
    {
        if self.present {
            let i = table.push(PyWeakReference::new(object, callback));
            self.refs.push(i);
            Some(PyWeakRef { index: i })
        } else {
            None
        }
    }

    /// Number of weak references listed.
    pub fn len(&self) -> (r: usize)
        ensures
            r == self.view_refs().len(),
    {
        self.refs.len()
    }

    /// Tells every listed weak reference that the instance is gone, then
    /// releases the list. Objects not listed are untouched.
    pub fn clear_weakrefs(&mut self, table: &mut WeakRefTable)
        requires
            old(self).within(old(table).records().len() as int),
        ensures
            final(self).spec_present() == old(self).spec_present(),
            final(self).view_refs().len() == 0,
            final(table).records().len() == old(table).records().len(),
            forall|j: int|
                0 <= j < old(table).records().len() ==> if listed(
                    old(self).view_refs(),
                    old(self).view_refs().len() as int,
                    j,
                ) {
                    cleared_from(old(table).records()[j], final(table).records()[j])
                } else {
                    final(table).records()[j] == old(table).records()[j]
                },
    {
        let ghost before = table.records();
        let ghost refs = self.refs@;
        assert forall|k: int| 0 <= k < refs.len() implies #[trigger] refs[k] < before.len() by {
            assert(self.view_refs()[k] < before.len());
        }
        let mut i: usize = 0;
        while i < self.refs.len()
            invariant
                refs == self.refs@,
                i <= refs.len(),
                forall|k: int| 0 <= k < refs.len() ==> #[trigger] refs[k] < before.len(),
                table.records().len() == before.len(),
                forall|j: int|
                    0 <= j < before.len() ==> if listed(refs, i as int, j) {
                        cleared_from(before[j], table.records()[j])
                    } else {
                        table.records()[j] == before[j]
                    },
            decreases refs.len() - i,
        {
            let ghost mid = table.records();
            let at = self.refs[i];
            assert(refs[i as int] < before.len());
            table.clear_at(at);
            assert forall|j: int| 0 <= j < before.len() implies if listed(refs, i + 1, j) {
                cleared_from(before[j], table.records()[j])
            } else {
                table.records()[j] == before[j]
            } by {
                if j == at as int {
                    assert(listed(refs, i + 1, j)) by {
                        assert(refs[i as int] as int == j);
                    }
                } else {
                    if listed(refs, i + 1, j) {
                        let k = choose|k: int| 0 <= k < i + 1 && refs[k] as int == j;
                        assert(k != i);
                        assert(listed(refs, i as int, j));
                    } else {
                        assert(!listed(refs, i as int, j));
                    }
                }
            }
            i = i + 1;
        }
        self.refs = Vec::new();
    }
}

} // verus!
