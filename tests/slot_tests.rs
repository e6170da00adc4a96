use pyclass_cell::slots::{DictSlot, ThreadChecker};
use pyclass_cell::weakref::{
    PyWeakRef, PyWeakRefMethods, PyWeakReference, WeakRefList, WeakRefTable, NONE_OBJECT,
};

#[test]
fn weak_references_observe_clearing() {
    let mut table = WeakRefTable::new();
    let other = PyWeakRef::new(&mut table, 7);
    let mut list = WeakRefList::new(true);
    let a = list.add(&mut table, 42, None).unwrap();
    let b = list.add(&mut table, 42, Some(9)).unwrap();
    assert_eq!(a.upgrade(&table), Some(42));
    assert_eq!(b.get_object(&table), 42);
    assert_eq!(list.len(), 2);
    list.clear_weakrefs(&mut table);
    assert_eq!(list.len(), 0);
    // the references handed out before clearing now read no object
    assert_eq!(a.upgrade(&table), None);
    assert_eq!(a.get_object(&table), NONE_OBJECT);
    assert_eq!(b.get_object_raw(&table), NONE_OBJECT);
    assert_eq!(table.record(b.index()).clear(), None);
    // a reference to another object is untouched
    assert_eq!(other.upgrade(&table), Some(7));

    let mut absent = WeakRefList::new(false);
    assert!(absent.add(&mut table, 1, None).is_none());
    assert_eq!(table.len(), 3);
}

#[test]
fn weak_reference_records() {
    let mut table = WeakRefTable::new();
    let w = PyWeakRef::new_with(&mut table, 5, 6);
    assert_eq!(w.index(), 0);
    assert_eq!(w.upgrade(&table), Some(5));
    assert_eq!(w.get_object_raw(&table), 5);
    let mut r = PyWeakReference::new(5, Some(6));
    assert_eq!(r.clear(), Some(6));
    assert_eq!(r.clear(), None);
    assert_eq!(r.get_object(), NONE_OBJECT);
    assert_eq!(r.upgrade(), None);
}

#[test]
fn thread_checker_and_dict_slot() {
    let t = ThreadChecker::new(true, 1);
    assert!(t.check(1));
    assert!(!t.check(2));
    assert!(!t.can_drop(2));
    assert!(t.check_threadsafe(2).is_err());
    let free = ThreadChecker::new(false, 1);
    assert!(free.can_drop(2));

    let mut d = DictSlot::new(true);
    d.set_dict(77);
    assert_eq!(d.clear_dict(), Some(77));
    assert_eq!(d.clear_dict(), None);
    let mut absent = DictSlot::new(false);
    absent.set_dict(77);
    assert_eq!(absent.clear_dict(), None);
}
