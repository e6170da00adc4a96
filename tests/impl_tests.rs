use pyclass_cell::info::PyClassInfo;
use pyclass_cell::layout::{
    PyClassObjectBase, PyClassObjectLayout, PyStaticClassObject,
};
use pyclass_cell::mutability::{
    classify, ClassMutability, ExtendsMutableAncestor, ImmutableClass, MutableClass,
    PyClassMutability,
};
use pyclass_cell::pycell::{NativeBase, PyCell, PyCellBase};

fn object_base() -> PyClassObjectBase {
    PyClassObjectBase::new(16, 8).unwrap()
}

fn class(frozen: bool, value_size: usize, value_align: usize) -> PyClassInfo {
    let mut c = PyClassInfo::new(value_size, value_align);
    c.frozen = frozen;
    c
}

#[test]
fn test_inherited_size() {
    let base_with_data =
        PyStaticClassObject::new(&object_base(), class(false, 8, 8), ClassMutability::Mutable)
            .unwrap();
    let child_tag = ClassMutability::Mutable.mutable_child();
    let child_without_data =
        PyStaticClassObject::new(&base_with_data, class(false, 0, 1), child_tag).unwrap();
    let child_with_data =
        PyStaticClassObject::new(&base_with_data, class(false, 8, 8), child_tag).unwrap();

    let base_size = base_with_data.basicsize();
    assert!(base_size > 0); // negative indicates variable sized
    assert_eq!(base_size, child_without_data.basicsize());
    assert!(base_size < child_with_data.basicsize());
}

fn tags_of(frozen: &[bool]) -> Vec<ClassMutability> {
    classify(&frozen.to_vec())
}

fn last(frozen: &[bool]) -> ClassMutability {
    *tags_of(frozen).last().unwrap()
}

const MUTABLE: ClassMutability = ClassMutability::Mutable;
const IMMUTABLE: ClassMutability = ClassMutability::Immutable;
const MUTABLE_WITH_MUTABLE_ANCESTOR: ClassMutability =
    ClassMutability::ExtendsMutableAncestor { frozen: false };
const IMMUTABLE_WITH_MUTABLE_ANCESTOR: ClassMutability =
    ClassMutability::ExtendsMutableAncestor { frozen: true };

#[test]
fn test_inherited_mutability() {
    // mutable base
    assert_eq!(last(&[false]), MUTABLE);

    // children of mutable base have a mutable ancestor
    assert_eq!(last(&[false, false]), MUTABLE_WITH_MUTABLE_ANCESTOR);
    assert_eq!(last(&[false, true]), IMMUTABLE_WITH_MUTABLE_ANCESTOR);

    // grandchildren of mutable base have a mutable ancestor
    assert_eq!(last(&[false, false, false]), MUTABLE_WITH_MUTABLE_ANCESTOR);
    assert_eq!(last(&[false, true, false]), MUTABLE_WITH_MUTABLE_ANCESTOR);
    assert_eq!(last(&[false, false, true]), IMMUTABLE_WITH_MUTABLE_ANCESTOR);
    assert_eq!(last(&[false, true, true]), IMMUTABLE_WITH_MUTABLE_ANCESTOR);

    // immutable base and children
    assert_eq!(last(&[true]), IMMUTABLE);
    assert_eq!(last(&[true, true]), IMMUTABLE);
    assert_eq!(last(&[true, true, true]), IMMUTABLE);

    // mutable children of immutable at any level are simply mutable
    assert_eq!(last(&[true, false]), MUTABLE);
    assert_eq!(last(&[true, true, false]), MUTABLE);

    // children of the mutable child display this property
    assert_eq!(last(&[true, false, false]), MUTABLE_WITH_MUTABLE_ANCESTOR);
    assert_eq!(last(&[true, false, true]), IMMUTABLE_WITH_MUTABLE_ANCESTOR);

    // the same tags as types
    assert_eq!(MutableClass::tag(), MUTABLE);
    assert_eq!(ImmutableClass::tag(), IMMUTABLE);
    assert_eq!(
        ExtendsMutableAncestor::<MutableClass>::tag(),
        MUTABLE_WITH_MUTABLE_ANCESTOR
    );
    assert_eq!(
        ExtendsMutableAncestor::<ImmutableClass>::tag(),
        IMMUTABLE_WITH_MUTABLE_ANCESTOR
    );
    assert_eq!(MUTABLE.immutable_child(), IMMUTABLE_WITH_MUTABLE_ANCESTOR);
    assert_eq!(IMMUTABLE.mutable_child(), MUTABLE);
}

fn mmm() -> PyCell<u64> {
    let classes = vec![
        PyClassInfo::new(0, 1),
        PyClassInfo::new(0, 1),
        PyClassInfo::new(0, 1),
    ];
    PyCell::new(
        PyCellBase { native: NativeBase::Object },
        &classes,
        vec![1, 2, 3],
        100,
        7,
    )
}

fn shared_ok(cell: &mut PyCell<u64>, level: usize) -> bool {
    match cell.try_borrow(level) {
        Ok(guard) => {
            cell.release_borrow(guard);
            true
        }
        Err(_) => false,
    }
}

fn exclusive_ok(cell: &mut PyCell<u64>, level: usize) -> bool {
    match cell.try_borrow_mut(level) {
        Ok(guard) => {
            cell.release_borrow_mut(guard);
            true
        }
        Err(_) => false,
    }
}

#[test]
fn test_mutable_borrow_prevents_further_borrows() {
    let mut cell = mmm();
    let refmut = cell.borrow_mut(2);

    // Cannot take any other mutable or immutable borrows whilst the object is borrowed mutably
    assert!(!shared_ok(&mut cell, 2));
    assert!(!shared_ok(&mut cell, 1));
    assert!(!shared_ok(&mut cell, 0));
    assert!(!exclusive_ok(&mut cell, 2));
    assert!(!exclusive_ok(&mut cell, 1));
    assert!(!exclusive_ok(&mut cell, 0));

    // With the borrow dropped, all other borrow attempts will succeed
    cell.release_borrow_mut(refmut);

    assert!(shared_ok(&mut cell, 2));
    assert!(shared_ok(&mut cell, 1));
    assert!(shared_ok(&mut cell, 0));
    assert!(exclusive_ok(&mut cell, 2));
    assert!(exclusive_ok(&mut cell, 1));
    assert!(exclusive_ok(&mut cell, 0));
}

#[test]
fn test_immutable_borrows_prevent_mutable_borrows() {
    let mut cell = mmm();
    let shared = cell.borrow(2);

    // Further immutable borrows are ok
    assert!(shared_ok(&mut cell, 2));
    assert!(shared_ok(&mut cell, 1));
    assert!(shared_ok(&mut cell, 0));

    // Further mutable borrows are not ok
    assert!(!exclusive_ok(&mut cell, 2));
    assert!(!exclusive_ok(&mut cell, 1));
    assert!(!exclusive_ok(&mut cell, 0));

    // With the borrow dropped, all mutable borrow attempts will succeed
    cell.release_borrow(shared);

    assert!(exclusive_ok(&mut cell, 2));
    assert!(exclusive_ok(&mut cell, 1));
    assert!(exclusive_ok(&mut cell, 0));
}
