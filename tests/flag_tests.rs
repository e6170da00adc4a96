use pyclass_cell::class_object::{
    exclusive_outcome, shared_next, BorrowChecker as AtomicChecker, EmptySlot as AtomicEmpty,
    PyClassBorrowChecker as AtomicBorrowChecker,
};
use pyclass_cell::flag::{BorrowFlag, HAS_MUTABLE_BORROW, MAX_SHARED, UNUSED};
use pyclass_cell::pycell::{BorrowChecker, EmptySlot, PyClassBorrowChecker};

#[test]
fn flag_counts_shared_borrows() {
    let f = BorrowFlag::unused();
    assert!(f.is_unused_flag());
    let f = f.increment().unwrap();
    let f = f.increment().unwrap();
    assert_eq!(f, BorrowFlag(2));
    let f = f.decrement();
    assert_eq!(f, BorrowFlag(1));
    assert!(!f.is_exclusive_flag());
    assert_eq!(f.decrement(), BorrowFlag(UNUSED));
}

#[test]
fn flag_exclusive_only_from_unused() {
    let f = BorrowFlag::unused().acquire_mut().unwrap();
    assert_eq!(f, BorrowFlag(HAS_MUTABLE_BORROW));
    assert!(f.is_exclusive_flag());
    // repeated attempts while held all fail
    for _ in 0..5 {
        assert!(f.acquire_mut().is_err());
        assert!(f.increment().is_err());
    }
    assert!(BorrowFlag(1).acquire_mut().is_err());
    assert_eq!(f.release_mut(), BorrowFlag(UNUSED));
}

#[test]
fn flag_saturates_below_sentinel() {
    assert_eq!(MAX_SHARED, usize::MAX - 1);
    assert_eq!(BorrowFlag(MAX_SHARED - 1).increment().unwrap(), BorrowFlag(MAX_SHARED));
    assert!(BorrowFlag(MAX_SHARED).increment().is_err());
}

#[test]
fn error_messages() {
    let e = BorrowFlag(HAS_MUTABLE_BORROW).increment().unwrap_err();
    assert_eq!(e.message(), "Already mutably borrowed");
    let e = BorrowFlag(3).acquire_mut().unwrap_err();
    assert_eq!(e.message(), "Already borrowed");
}

#[test]
fn counting_checker_protocol() {
    let mut c = BorrowChecker::new();
    assert!(c.try_borrow().is_ok());
    assert!(c.try_borrow_unguarded().is_ok());
    assert!(c.try_borrow_mut().is_err());
    c.release_borrow();
    assert!(c.try_borrow_mut().is_ok());
    assert!(c.try_borrow().is_err());
    assert!(c.try_borrow_unguarded().is_err());
    assert!(c.try_borrow_mut().is_err());
    c.release_borrow_mut();
    assert!(c.try_borrow_mut().is_ok());
}

#[test]
fn stateless_checker_grants_shared() {
    let mut c = EmptySlot::new();
    for _ in 0..10 {
        assert!(c.try_borrow().is_ok());
    }
    c.release_borrow();
    assert!(c.try_borrow_unguarded().is_ok());
}

#[test]
fn atomic_checker_protocol() {
    let c = AtomicChecker::new();
    assert!(c.try_borrow().is_ok());
    assert!(c.try_borrow().is_ok());
    assert!(c.try_borrow_mut().is_err());
    c.release_borrow();
    assert!(c.try_borrow_mut().is_err());
    c.release_borrow();
    assert!(c.try_borrow_mut().is_ok());
    assert!(c.try_borrow().is_err());
    assert!(c.try_borrow_mut().is_err());
    c.release_borrow_mut();
    assert!(c.try_borrow().is_ok());

    let e = AtomicEmpty::new();
    assert!(e.try_borrow().is_ok());
    e.release_borrow();
}

#[test]
fn atomic_step_decisions() {
    assert!(exclusive_outcome(Ok(UNUSED)).is_ok());
    assert!(exclusive_outcome(Err(4)).is_err());
    assert_eq!(shared_next(0).unwrap(), 1);
    assert_eq!(shared_next(41).unwrap(), 42);
    assert!(shared_next(HAS_MUTABLE_BORROW).is_err());
}
