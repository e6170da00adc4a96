use pyclass_cell::info::PyClassInfo;
use pyclass_cell::mutability::{
    resolve_checker, ClassMutability, ExtendsMutableAncestor, MutableClass,
};
use pyclass_cell::pycell::{
    GetBorrowChecker, NativeBase, PyCell, PyCellBase, PyCellLayout, TeardownEvent,
};
use pyclass_cell::layout::PyClassObjectBase;
use pyclass_cell::type_object::PyType;
use pyclass_cell::weakref::{PyWeakRef, WeakRefTable, NONE_OBJECT};
use std::cell::RefCell;
use std::rc::Rc;

fn info(frozen: bool) -> PyClassInfo {
    let mut c = PyClassInfo::new(8, 8);
    c.frozen = frozen;
    c
}

fn object() -> PyCellBase {
    PyCellBase { native: NativeBase::Object }
}

fn cell_of(frozen: &[bool], values: Vec<u64>) -> PyCell<u64> {
    let classes: Vec<PyClassInfo> = frozen.iter().map(|f| info(*f)).collect();
    PyCell::new(object(), &classes, values, 100, 1)
}

#[test]
fn exclusive_through_leaf_blocks_ancestors_until_released() {
    let mut cell = cell_of(&[false, false, false], vec![10, 20, 30]);
    let leaf = cell.try_borrow_mut(2).unwrap();
    for level in 0..3 {
        assert!(cell.try_borrow(level).is_err());
        assert!(cell.try_borrow_mut(level).is_err());
    }
    cell.release_borrow_mut(leaf);
    for level in 0..3 {
        let g = cell.try_borrow(level).unwrap();
        cell.release_borrow(g);
        let g = cell.try_borrow_mut(level).unwrap();
        cell.release_borrow_mut(g);
    }
}

#[test]
fn frozen_child_of_mutable_base_shares_checker() {
    let mut cell = cell_of(&[false, true], vec![1, 2]);
    // many shared borrows through the frozen child succeed together
    let a = cell.try_borrow(1).unwrap();
    let b = cell.try_borrow(1).unwrap();
    assert_eq!(*cell.get(&a), 2);
    // and they block an exclusive borrow through the mutable base
    assert!(cell.try_borrow_mut(0).is_err());
    cell.release_borrow(a);
    cell.release_borrow(b);
    // an exclusive borrow through the base blocks the frozen child
    let m = cell.try_borrow_mut(0).unwrap();
    assert!(cell.try_borrow(1).is_err());
    cell.release_borrow_mut(m);
    assert!(cell.try_borrow(1).is_ok());
}

#[test]
fn immutable_chain_always_grants_shared() {
    let mut cell = cell_of(&[true, true], vec![5, 6]);
    let mut guards = Vec::new();
    for _ in 0..20 {
        guards.push(cell.try_borrow(1).unwrap());
        guards.push(cell.try_borrow(0).unwrap());
    }
    assert_eq!(cell.try_borrow_unguarded(1).map(|v| *v).ok(), Some(6));
    for g in guards {
        cell.release_borrow(g);
    }
}

#[test]
fn separate_chains_do_not_interfere() {
    // frozen base, mutable child: the child owns its own checker
    let mut cell = cell_of(&[true, false, false], vec![1, 2, 3]);
    let m = cell.try_borrow_mut(2).unwrap();
    assert!(cell.try_borrow(1).is_err());
    assert!(cell.try_borrow(0).is_ok());
    cell.release_borrow_mut(m);
}

#[test]
fn replace_swap_and_replace_with() {
    let mut a = cell_of(&[false, false], vec![1, 2]);
    let mut b = cell_of(&[false, false], vec![3, 4]);
    assert_eq!(a.replace(1, 20), 2);
    assert_eq!(a.try_borrow_unguarded(1).map(|v| *v).ok(), Some(20));
    a.swap(&mut b, 0);
    assert_eq!(a.try_borrow_unguarded(0).map(|v| *v).ok(), Some(3));
    assert_eq!(b.try_borrow_unguarded(0).map(|v| *v).ok(), Some(1));
    assert_eq!(a.replace_with(1, |v| v * 2), 20);
    assert_eq!(a.try_borrow_unguarded(1).map(|v| *v).ok(), Some(40));
}

#[test]
fn writes_through_exclusive_guard() {
    let mut cell = cell_of(&[false], vec![7]);
    let g = cell.borrow_mut(0);
    assert!(cell.try_borrow_unguarded(0).is_err());
    assert_eq!(cell.set(&g, 8), 7);
    assert_eq!(*cell.get_mut_view(&g), 8);
    cell.release_borrow_mut(g);
    let r = cell.borrow(0);
    assert_eq!(*cell.get(&r), 8);
    cell.release_borrow(r);
}

#[test]
fn guards_move_to_base_class() {
    let mut cell = cell_of(&[false, false, false], vec![1, 2, 3]);
    let g = cell.borrow_mut(2);
    let g = g.into_super(&cell);
    assert_eq!(g.level(), 1);
    cell.release_borrow_mut(g);
    assert!(cell.try_borrow_mut(0).is_ok());

    let mut cell = cell_of(&[false, false], vec![1, 2]);
    let r = cell.borrow(1);
    let r = r.into_super(&cell);
    assert_eq!(r.level(), 0);
    assert_eq!(*cell.get(&r), 1);
    cell.release_borrow(r);
    assert!(cell.try_borrow_mut(1).is_ok());
}

#[test]
fn checker_resolution() {
    let cell = cell_of(&[true, false, true, false], vec![0, 0, 0, 0]);
    assert_eq!(MutableClass::borrow_checker(&cell, 1), Some(1));
    assert_eq!(
        ExtendsMutableAncestor::<MutableClass>::borrow_checker(&cell, 3),
        Some(1)
    );
    let tags = vec![
        ClassMutability::Immutable,
        ClassMutability::Mutable,
        ClassMutability::ExtendsMutableAncestor { frozen: true },
    ];
    assert_eq!(resolve_checker(&tags, 0), None);
    assert_eq!(resolve_checker(&tags, 2), Some(1));
}

#[test]
fn thread_affinity_check() {
    let mut leaf = info(false);
    leaf.unsendable = true;
    let cell = PyCell::new(object(), &vec![info(false), leaf], vec![1u64, 2], 100, 7);
    assert!(cell.check_threadsafe(7).is_ok());
    let e = cell.check_threadsafe(8).unwrap_err();
    assert_eq!(
        e.message(),
        "accessed from a thread other than the one that created it"
    );
}

struct Noisy {
    name: &'static str,
    log: Rc<RefCell<Vec<&'static str>>>,
}

impl Drop for Noisy {
    fn drop(&mut self) {
        self.log.borrow_mut().push(self.name);
    }
}

fn noisy_values(log: &Rc<RefCell<Vec<&'static str>>>) -> Vec<Noisy> {
    vec![
        Noisy { name: "Base", log: log.clone() },
        Noisy { name: "Mid", log: log.clone() },
        Noisy { name: "Leaf", log: log.clone() },
    ]
}

#[test]
fn teardown_runs_most_derived_first() {
    let log = Rc::new(RefCell::new(Vec::new()));
    let mut with_slots = info(false);
    with_slots.dict = true;
    with_slots.weakref = true;
    let classes = vec![with_slots, with_slots, with_slots];
    let mut cell = PyCell::new(object(), &classes, noisy_values(&log), 100, 3);
    let mut weakrefs = WeakRefTable::new();
    let unrelated = PyWeakRef::new(&mut weakrefs, 200);
    let leaf_ref = cell.add_weakref(2, &mut weakrefs, Some(9)).unwrap();
    let base_ref = cell.add_weakref(0, &mut weakrefs, None).unwrap();
    assert_eq!(leaf_ref.upgrade(&weakrefs), Some(100));
    assert_eq!(base_ref.get_object(&weakrefs), 100);
    let events = cell.tp_dealloc(3, &mut weakrefs);
    // handed-out references now see no object; others are untouched
    assert_eq!(leaf_ref.upgrade(&weakrefs), None);
    assert_eq!(leaf_ref.get_object(&weakrefs), NONE_OBJECT);
    assert_eq!(base_ref.get_object_raw(&weakrefs), NONE_OBJECT);
    assert_eq!(unrelated.upgrade(&weakrefs), Some(200));
    assert_eq!(
        events,
        vec![
            TeardownEvent::DropValue(2),
            TeardownEvent::ClearDict(2),
            TeardownEvent::ClearWeak(2),
            TeardownEvent::DropValue(1),
            TeardownEvent::ClearDict(1),
            TeardownEvent::ClearWeak(1),
            TeardownEvent::DropValue(0),
            TeardownEvent::ClearDict(0),
            TeardownEvent::ClearWeak(0),
            TeardownEvent::FreeMemory,
        ]
    );
    assert_eq!(*log.borrow(), vec!["Leaf", "Mid", "Base"]);
}

#[test]
fn teardown_from_foreign_context_leaks_unsendable_value() {
    let log = Rc::new(RefCell::new(Vec::new()));
    let mut leaf = info(false);
    leaf.unsendable = true;
    let classes = vec![info(false), info(false), leaf];
    let cell = PyCell::new(
        PyCellBase { native: NativeBase::WithDealloc },
        &classes,
        noisy_values(&log),
        100,
        3,
    );
    let events = cell.tp_dealloc(4, &mut WeakRefTable::new());
    assert_eq!(events[0], TeardownEvent::SkipDrop(2));
    assert_eq!(events[3], TeardownEvent::DropValue(1));
    assert_eq!(events[9], TeardownEvent::BaseDealloc);
    assert_eq!(*log.borrow(), vec!["Mid", "Base"]);
}

#[test]
fn frozen_middle_class_keeps_chain_exclusive() {
    // Base (mutable) -> Mid (frozen) -> Leaf (mutable): one checker for all
    let mut cell = cell_of(&[false, true, false], vec![1, 2, 3]);
    let leaf = cell.try_borrow_mut(2).unwrap();
    assert!(cell.try_borrow(1).is_err());
    assert!(cell.try_borrow(0).is_err());
    assert!(cell.try_borrow_mut(0).is_err());
    cell.release_borrow_mut(leaf);
    let mid = cell.try_borrow(1).unwrap();
    assert!(cell.try_borrow_mut(2).is_err());
    assert!(cell.try_borrow(0).is_ok());
    cell.release_borrow(mid);
}

#[test]
fn registered_type_builds_instances() {
    let ty = PyType::new(
        PyClassObjectBase::new(16, 8).unwrap(),
        vec![info(false), info(true)],
    )
    .unwrap();
    let mut cell = ty.instance(object(), vec![4u64, 5], 100, 1);
    assert_eq!(cell.chain_len(), 2);
    let g = cell.try_borrow(1).unwrap();
    assert_eq!(*cell.get(&g), 5);
    assert!(cell.try_borrow_mut(0).is_err());
    cell.release_borrow(g);
    assert_eq!(cell.replace(0, 40), 4);
}

#[test]
fn weak_reference_needs_a_slot() {
    let mut cell = cell_of(&[false, false], vec![1, 2]);
    let mut weakrefs = WeakRefTable::new();
    assert!(cell.add_weakref(1, &mut weakrefs, None).is_none());
    assert_eq!(weakrefs.len(), 0);
}
