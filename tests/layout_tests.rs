use pyclass_cell::info::PyClassInfo;
use pyclass_cell::layout::{
    checked_align_up, usize_to_py_ssize, InternalPyClassObjectLayout, LayoutError,
    PyClassObjectBase, PyClassObjectLayout, PyObjectOffset, PyStaticClassObject,
    PyVariableClassObject, PyVariableClassObjectBase,
};
use pyclass_cell::mutability::ClassMutability;
use pyclass_cell::type_object::PyType;

fn chain() -> Vec<PyClassInfo> {
    let base = PyClassInfo::new(8, 8);
    let mid = PyClassInfo::new(8, 8);
    let mut leaf = PyClassInfo::new(4, 4);
    leaf.dict = true;
    leaf.weakref = true;
    vec![base, mid, leaf]
}

#[test]
fn three_level_chain_slots_on_leaf() {
    let classes = chain();
    let object = PyClassObjectBase::new(16, 8).unwrap();
    let base = PyStaticClassObject::new(&object, classes[0], ClassMutability::Mutable).unwrap();
    let ext = ClassMutability::ExtendsMutableAncestor { frozen: false };
    let mid = PyStaticClassObject::new(&base, classes[1], ext).unwrap();
    let leaf = PyStaticClassObject::new(&mid, classes[2], ext).unwrap();

    assert_eq!(base.contents_offset(), PyObjectOffset::Absolute(16));
    assert_eq!(base.basicsize(), 32);
    assert_eq!(mid.contents_offset(), PyObjectOffset::Absolute(32));
    assert_eq!(mid.basicsize(), 40);
    assert_eq!(leaf.contents_offset(), PyObjectOffset::Absolute(40));
    assert_eq!(leaf.basicsize(), 64);
    assert_eq!(leaf.dict_offset(), Some(PyObjectOffset::Absolute(48)));
    assert_eq!(leaf.weaklist_offset(), Some(PyObjectOffset::Absolute(56)));
    assert_eq!(mid.dict_offset(), None);
    assert_eq!(base.weaklist_offset(), None);

    // within the instance, after every ancestor's contents block
    for off in [48isize, 56] {
        assert!(0 <= off && off < leaf.basicsize());
        assert!(off >= 16 + base.contents.size as isize);
        assert!(off >= 32 + mid.contents.size as isize);
    }

    // the variable strategy agrees once resolved at the contents block
    let var = PyVariableClassObject::new(classes[2], ext).unwrap();
    assert_eq!(var.basicsize(), -24);
    assert_eq!(var.contents_offset(), PyObjectOffset::Relative(0));
    assert_eq!(var.dict_offset(), Some(PyObjectOffset::Relative(8)));
    assert_eq!(var.dict_offset().unwrap().resolve(40), Some(48));
    assert_eq!(var.weaklist_offset().unwrap().resolve(40), Some(56));
}

#[test]
fn registration_reports_leaf_figures() {
    let object = PyClassObjectBase::new(16, 8).unwrap();
    let ty = PyType::new(object, chain()).unwrap();
    assert_eq!(ty.basicsize(), 64);
    assert_eq!(ty.dict_offset(), Some(PyObjectOffset::Absolute(48)));
    assert_eq!(ty.weaklist_offset(), Some(PyObjectOffset::Absolute(56)));
    assert_eq!(ty.tag(0), ClassMutability::Mutable);
    assert_eq!(
        ty.tag(2),
        ClassMutability::ExtendsMutableAncestor { frozen: false }
    );
}

#[test]
fn layout_errors() {
    assert_eq!(PyClassObjectBase::new(16, 0), Err(LayoutError::InvalidAlign));
    assert_eq!(
        PyVariableClassObjectBase::new(usize::MAX, 8),
        Err(LayoutError::Overflow)
    );
    let object = PyClassObjectBase::new(16, 8).unwrap();
    let bad_align = PyClassInfo::new(8, 0);
    assert_eq!(
        PyStaticClassObject::new(&object, bad_align, ClassMutability::Mutable),
        Err(LayoutError::InvalidAlign)
    );
    let huge = PyClassInfo::new(isize::MAX as usize, 8);
    assert_eq!(
        PyStaticClassObject::new(&object, huge, ClassMutability::Mutable),
        Err(LayoutError::Overflow)
    );
    assert!(PyType::new(object, vec![PyClassInfo::new(8, 8), huge]).is_err());
}

#[test]
fn size_arithmetic() {
    assert_eq!(checked_align_up(13, 8), Ok(16));
    assert_eq!(checked_align_up(16, 8), Ok(16));
    assert_eq!(checked_align_up(usize::MAX, 8), Err(LayoutError::Overflow));
    assert_eq!(usize_to_py_ssize(40), Ok(40));
    assert_eq!(usize_to_py_ssize(usize::MAX), Err(LayoutError::Overflow));
}
