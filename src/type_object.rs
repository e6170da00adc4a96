//! Registration of a class with the host: its chain's tags and layouts,
//! computed once, and the figures the host's type creation receives.
use crate::info::{frozen_flags, frozen_of, PyClassInfo};
use crate::layout::{
    lemma_leaf_slots_placement, variable_layout, POINTER_SIZE, chain_layouts, static_chain, InternalPyClassObjectLayout, LayoutError, PyClassObjectBase,
    PyClassObjectLayout, PyObjectOffset, PyStaticClassObject,
};
use crate::mutability::{classify, tags_of, ClassMutability};
use crate::pycell::{PyCell, PyCellBase};
use vstd::prelude::*;

verus! {

/// A registered class: the chain of classes from the one next to the native
/// base to this one, their tags, and their static layouts.
pub struct PyType {
    base: PyClassObjectBase,
    classes: Vec<PyClassInfo>,
    tags: Vec<ClassMutability>,
    layouts: Vec<PyStaticClassObject>,
}

impl PyType {
    pub closed spec fn spec_base(&self) -> PyClassObjectBase {
        self.base
    }

    pub closed spec fn spec_classes(&self) -> Seq<PyClassInfo> {
        self.classes@
    }

    pub closed spec fn spec_tags(&self) -> Seq<ClassMutability> {
        self.tags@
    }

    pub closed spec fn spec_layouts(&self) -> Seq<PyStaticClassObject> {
        self.layouts@
    }

    pub closed spec fn wf(&self) -> bool {
        &&& self.classes@.len() >= 1
        &&& self.base.layout_ok()
        &&& self.tags@ == tags_of(frozen_of(self.classes@))
        &&& chain_layouts(
            self.base.spec_basicsize(),
            self.base.spec_align(),
            self.classes@,
            self.tags@,
            self.classes@.len() as int,
        ) == Some(self.layouts@)
        &&& self.layouts@.len() == self.classes@.len()
        &&& forall|i: int| 0 <= i < self.layouts@.len() ==> (#[trigger] self.layouts@[i]).layout_ok()
    }

    /// Registers the chain `classes` (base first, this class last) over the
    /// native base `base`: classifies it and lays it out, or reports why it
    /// cannot be laid out.
    pub fn new(base: PyClassObjectBase, classes: Vec<PyClassInfo>) -> (r: Result<PyType, LayoutError>)
        requires
            base.layout_ok(),
            classes@.len() >= 1,
        ensures
            r is Ok <==> chain_layouts(
                base.spec_basicsize(),
                base.spec_align(),
                classes@,
                tags_of(frozen_of(classes@)),
                classes@.len() as int,
            ) is Some,
            r is Ok ==> r->Ok_0.wf() && r->Ok_0.spec_classes() == classes@ && r->Ok_0.spec_base()
                == base && r->Ok_0.spec_tags() == tags_of(frozen_of(classes@)),
            r is Ok ==> r->Ok_0.spec_layouts() == chain_layouts(
                base.spec_basicsize(),
                base.spec_align(),
                classes@,
                tags_of(frozen_of(classes@)),
                classes@.len() as int,
            )->Some_0,
    {
        let frozen = frozen_flags(&classes);
        let tags = classify(&frozen);
        proof {
            base.lemma_bounds();
        }
        let layouts = static_chain(&base, &classes, &tags)?;
        proof {
            crate::layout::lemma_chain_layouts_ok(
                base.spec_basicsize(),
                base.spec_align(),
                classes@,
                tags@,
            );
        }
        Ok(PyType { base, classes, tags, layouts })
    }

    /// The shape of a registered type: one layout per class, each fitting
    /// the host's size type, over a base that fits it too.
    pub proof fn lemma_shape(&self)
        requires
            self.wf(),
        ensures
            self.spec_classes().len() >= 1,
            self.spec_tags().len() == self.spec_classes().len(),
            self.spec_layouts().len() == self.spec_classes().len(),
            forall|i: int|
                0 <= i < self.spec_layouts().len() ==> (#[trigger] self.spec_layouts()[i]).layout_ok(),
            self.spec_base().layout_ok(),
    {
    }

    /// The registered class's dictionary and weak-reference slots, where it
    /// has them, lie inside its instances, after the contents block of every
    /// ancestor, and where the variable strategy puts them relative to its
    /// own contents block.
    pub proof fn lemma_registered_slots(&self)
        requires
            self.wf(),
        ensures
            ({
                let ls = self.spec_layouts();
                let n = self.spec_classes().len() as int;
                let leaf = ls[n - 1];
                let var = variable_layout(self.spec_classes()[n - 1], self.spec_tags()[n - 1]);
                let d = leaf.contents_offset + leaf.contents.dict_offset;
                let w = leaf.contents_offset + leaf.contents.weakref_offset;
                &&& var is Some
                &&& self.spec_classes()[n - 1].dict ==> {
                    &&& leaf.spec_dict_offset() == Some(PyObjectOffset::Absolute(d as isize))
                    &&& 0 <= d && d + POINTER_SIZE <= leaf.basicsize
                    &&& forall|i: int|
                        0 <= i < n - 1 ==> ls[i].contents_offset + ls[i].contents.size <= d
                    &&& var->Some_0.spec_dict_offset()->Some_0.spec_resolve(leaf.contents_offset as int)
                        == d
                }
                &&& self.spec_classes()[n - 1].weakref ==> {
                    &&& leaf.spec_weaklist_offset() == Some(PyObjectOffset::Absolute(w as isize))
                    &&& 0 <= w && w + POINTER_SIZE <= leaf.basicsize
                    &&& forall|i: int|
                        0 <= i < n - 1 ==> ls[i].contents_offset + ls[i].contents.size <= w
                    &&& var->Some_0.spec_weaklist_offset()->Some_0.spec_resolve(
                        leaf.contents_offset as int,
                    ) == w
                }
            }),
    {
        self.base.lemma_bounds();
        lemma_leaf_slots_placement(
            self.base.spec_basicsize(),
            self.base.spec_align(),
            self.classes@,
            self.tags@,
        );
    }

    /// The tag of class `level` of the chain.
    pub fn tag(&self, level: usize) -> (r: ClassMutability)
        requires
            self.wf(),
            level < self.spec_tags().len(),
        ensures
            r == self.spec_tags()[level as int],
    {
        self.tags[level]
    }

    /// The size the host's type creation receives for this class.
    pub fn basicsize(&self) -> (r: isize)
        requires
            self.wf(),
        ensures
            r == self.spec_layouts().last().spec_basicsize(),
    {
        let n = self.layouts.len();
        self.layouts[n - 1].basicsize()
    }

    /// The dictionary offset the host's type creation receives, if the
    /// class has a dictionary slot.
    pub fn dict_offset(&self) -> (r: Option<PyObjectOffset>)
        requires
            self.wf(),
        ensures
            r == self.spec_layouts().last().spec_dict_offset(),
    {
        let n = self.layouts.len();
        self.layouts[n - 1].dict_offset()
    }

    /// The weak-reference list offset the host's type creation receives, if
    /// the class has a weak-reference slot.
    pub fn weaklist_offset(&self) -> (r: Option<PyObjectOffset>)
        requires
            self.wf(),
        ensures
            r == self.spec_layouts().last().spec_weaklist_offset(),
    {
        let n = self.layouts.len();
        self.layouts[n - 1].weaklist_offset()
    }

    /// A new instance of this class over native base `native`, with host
    /// object id `object`, holding one value per class of the chain, created
    /// by context `thread`.
    pub fn instance<T>(&self, native: PyCellBase, values: Vec<T>, object: u64, thread: u64) -> (r:
        PyCell<T>)
        requires
            self.wf(),
            values@.len() == self.spec_classes().len(),
        ensures
            r.wf(),
            r.frozen() == frozen_of(self.spec_classes()),
            r.values() == values@,
            r.base() == native,
            r.object_id() == object,
            forall|k: int| 0 <= k < r.len() ==> (#[trigger] r.flags()[k]).is_unused(),
    {
        PyCell::new(native, &self.classes, values, object, thread)
    }
}

} // verus!
