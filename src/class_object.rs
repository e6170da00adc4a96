//! The borrow checkers of instances shared between execution contexts: the
//! flag is an atomic integer, read and updated by compare-and-swap.
use crate::flag::{BorrowFlag, PyBorrowError, PyBorrowMutError, HAS_MUTABLE_BORROW, UNUSED};
use std::sync::atomic::{AtomicUsize, Ordering};
use vstd::prelude::*;

verus! {

/// Relies on std::sync::atomic::fence: an acquire fence, so that what the
/// last exclusive holder wrote is visible to a new shared holder.
#[verifier::external_body]
fn acquire_fence() {
    std::sync::atomic::fence(Ordering::Acquire)
}

/// The borrow operations of a checker shared between contexts.
pub trait PyClassBorrowChecker: Sized {
    /// Whether the checker offers exclusive borrows.
    spec fn supports_mut() -> bool;

    fn new() -> Self;

    /// Takes a shared borrow unless an exclusive one is held.
    fn try_borrow(&self) -> Result<(), PyBorrowError>;

    fn release_borrow(&self);

    /// Takes the exclusive borrow if no borrow is held at that instant.
    fn try_borrow_mut(&self) -> Result<(), PyBorrowMutError>
        requires
            Self::supports_mut(),
    ;

    fn release_borrow_mut(&self)
        requires
            Self::supports_mut(),
    ;
}

/// The stateless checker of classes with no mutable ancestor.
pub struct EmptySlot(());

/// The atomic checker of one mutable chain.
pub struct BorrowChecker(AtomicUsize);

/// The outcome of an exclusive-borrow attempt, from what the
/// compare-exchange of `UNUSED` for `HAS_MUTABLE_BORROW` returned: it
/// succeeded exactly when the flag read `UNUSED`.
pub fn exclusive_outcome(cas: Result<usize, usize>) -> (r: Result<(), PyBorrowMutError>)
    ensures
        r is Ok <==> cas is Ok,
{
    match cas {
        Ok(_) => Ok(()),
        Err(_) => Err(PyBorrowMutError::new()),
    }
}

/// The value to swap in for a shared borrow when the flag reads
/// `observed`, or the refusal.
pub fn shared_next(observed: usize) -> (r: Result<usize, PyBorrowError>)
    ensures
        r is Ok <==> BorrowFlag(observed).admits_shared(),
        r is Ok ==> r->Ok_0 == observed + 1,
{
    match BorrowFlag(observed).increment() {
        Ok(f) => Ok(f.0),
        Err(e) => Err(e),
    }
}

/// What a shared-borrow attempt does after its compare-exchange.
#[derive(Debug, Clone, Copy, PartialEq, Eq, Structural)]
pub enum SharedStep {
    /// The exchange took: the borrow is held.
    Granted,
    /// Another context changed the flag to the value held: try again from it.
    Retry(usize),
    /// Out of retries: report the borrow as refused.
    GiveUp,
}

/// The next step of a shared-borrow attempt, from what the compare-exchange
/// returned and the retries left.
pub fn shared_after_exchange(cas: Result<usize, usize>, retries: usize) -> (r: SharedStep)
    ensures
        cas is Ok ==> r == SharedStep::Granted,
        cas is Err && retries > 0 ==> r == SharedStep::Retry(cas->Err_0),
        cas is Err && retries == 0 ==> r == SharedStep::GiveUp,
{
    match cas {
        Ok(_) => SharedStep::Granted,
        Err(changed) => if retries > 0 {
            SharedStep::Retry(changed)
        } else {
            SharedStep::GiveUp
        },
    }
}

impl PyClassBorrowChecker for EmptySlot {
    open spec fn supports_mut() -> bool {
        false
    }

    fn new() -> Self {
        EmptySlot(())
    }

    fn try_borrow(&self) -> Result<(), PyBorrowError> {
        Ok(())
    }

    fn release_borrow(&self) {
    }

    fn try_borrow_mut(&self) -> Result<(), PyBorrowMutError> {
        Err(PyBorrowMutError::new())
    }

    fn release_borrow_mut(&self) {
    }
}

impl PyClassBorrowChecker for BorrowChecker {
    open spec fn supports_mut() -> bool {
        true
    }

    fn new() -> Self {
        BorrowChecker(AtomicUsize::new(UNUSED))
    }

    /// Retries the compare-exchange while other contexts change the flag;
    /// each failed exchange means another context made progress. After
    /// `usize::MAX` such retries in a row the borrow is refused.
    fn try_borrow(&self) -> Result<(), PyBorrowError> {
        let mut value = self.0.load(Ordering::Relaxed);
        let mut retries: usize = usize::MAX;
        loop
            decreases retries,
        {
            let next = shared_next(value)?;
            let cas = self.0.compare_exchange(value, next, Ordering::Relaxed, Ordering::Relaxed);
            match shared_after_exchange(cas, retries) {
                SharedStep::Granted => {
                    acquire_fence();
                    return Ok(());
                },
                SharedStep::Retry(changed) => {
                    retries = retries - 1;
                    value = changed;
                },
                SharedStep::GiveUp => {
                    return Err(PyBorrowError::new());
                },
            }
        }
    }

    fn release_borrow(&self) {
        self.0.fetch_sub(1, Ordering::Relaxed);
    }

    fn try_borrow_mut(&self) -> Result<(), PyBorrowMutError> {
        exclusive_outcome(
            self.0.compare_exchange(UNUSED, HAS_MUTABLE_BORROW, Ordering::AcqRel, Ordering::Relaxed),
        )
    }

    fn release_borrow_mut(&self) {
        self.0.store(UNUSED, Ordering::Release)
    }
}

} // verus!
