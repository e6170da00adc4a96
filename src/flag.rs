//! The borrow flag: a counter with two sentinels, `UNUSED` and
//! `HAS_MUTABLE_BORROW`, and the error values of failed borrows.
use vstd::prelude::*;

verus! {

/// Flag value while no borrow is held.
pub const UNUSED: usize = 0;

/// Flag value while the one exclusive borrow is held.
pub const HAS_MUTABLE_BORROW: usize = usize::MAX;

/// The largest number of shared borrows a flag can count. It is one below the
/// exclusive sentinel; that many live guards cannot exist in an address space.
pub const MAX_SHARED: usize = usize::MAX - 1;

/// The state of a borrow flag: `UNUSED`, `n` shared borrows, or one exclusive
/// borrow.
#[derive(Debug, Clone, Copy, PartialEq, Eq, Structural)]
pub struct BorrowFlag(pub usize);

impl BorrowFlag {
    pub open spec fn is_unused(self) -> bool {
        self.0 == UNUSED
    }

    pub open spec fn is_exclusive(self) -> bool {
        self.0 == HAS_MUTABLE_BORROW
    }

    /// Number of shared borrows that the flag records.
    pub open spec fn shared(self) -> nat {
        if self.is_exclusive() {
            0
        } else {
            self.0 as nat
        }
    }

    /// Whether one more shared borrow may be granted.
    pub open spec fn admits_shared(self) -> bool {
        self.0 < MAX_SHARED
    }

    /// The flag after a successful shared borrow.
    pub open spec fn spec_incremented(self) -> BorrowFlag
        recommends
            self.admits_shared(),
    {
        BorrowFlag((self.0 + 1) as usize)
    }

    /// The flag after a shared borrow is released.
    pub open spec fn spec_decremented(self) -> BorrowFlag
        recommends
            self.shared() >= 1,
    {
        BorrowFlag((self.0 - 1) as usize)
    }

    pub fn unused() -> (r: BorrowFlag)
        ensures
            r.is_unused(),
            r.shared() == 0,
    {
        BorrowFlag(UNUSED)
    }

    pub fn is_unused_flag(self) -> (r: bool)
        ensures
            r == self.is_unused(),
    {
        self.0 == UNUSED
    }

    pub fn is_exclusive_flag(self) -> (r: bool)
        ensures
            r == self.is_exclusive(),
    {
        self.0 == HAS_MUTABLE_BORROW
    }

    /// The flag after one more shared borrow, or `PyBorrowError` while an
    /// exclusive borrow is held (or the count is saturated).
    pub fn increment(self) -> (r: Result<BorrowFlag, PyBorrowError>)
        ensures
            r is Ok <==> self.admits_shared(),
            r is Ok ==> r->Ok_0 == self.spec_incremented(),
            r is Ok ==> r->Ok_0.shared() == self.shared() + 1,
    {
        if self.0 < MAX_SHARED {
            Ok(BorrowFlag(self.0 + 1))
        } else {
            Err(PyBorrowError { _private: () })
        }
    }

    /// The flag after one shared borrow is released.
    pub fn decrement(self) -> (r: BorrowFlag)
        requires
            self.shared() >= 1,
        ensures
            r == self.spec_decremented(),
            r.shared() + 1 == self.shared(),
            !r.is_exclusive(),
    {
        BorrowFlag(self.0 - 1)
    }

    /// The flag after an exclusive borrow is taken: only an unused flag admits it.
    pub fn acquire_mut(self) -> (r: Result<BorrowFlag, PyBorrowMutError>)
        ensures
            r is Ok <==> self.is_unused(),
            r is Ok ==> r->Ok_0.is_exclusive(),
    {
        if self.0 == UNUSED {
            Ok(BorrowFlag(HAS_MUTABLE_BORROW))
        } else {
            Err(PyBorrowMutError { _private: () })
        }
    }

    /// The flag after the exclusive borrow is released.
    pub fn release_mut(self) -> (r: BorrowFlag)
        requires
            self.is_exclusive(),
        ensures
            r.is_unused(),
    {
        BorrowFlag(UNUSED)
    }
}

/// A shared borrow was refused because the value is mutably borrowed.
#[derive(Debug)]
pub struct PyBorrowError {
    _private: (),
}

impl PyBorrowError {
    pub(crate) fn new() -> (r: PyBorrowError) {
        PyBorrowError { _private: () }
    }

    /// The fixed message that a host exception for this error carries.
    pub fn message(&self) -> (r: String)
        ensures
            r@ == "Already mutably borrowed"@,
    {
        "Already mutably borrowed".to_string()
    }
}

/// An exclusive borrow was refused because the value is borrowed.
#[derive(Debug)]
pub struct PyBorrowMutError {
    _private: (),
}

impl PyBorrowMutError {
    pub(crate) fn new() -> (r: PyBorrowMutError) {
        PyBorrowMutError { _private: () }
    }

    /// The fixed message that a host exception for this error carries.
    pub fn message(&self) -> (r: String)
        ensures
            r@ == "Already borrowed"@,
    {
        "Already borrowed".to_string()
    }
}

/// One atomic step on a checker, taken by whichever context holds or asks
/// for a borrow. Releases are taken only by holders of the borrow released.
#[derive(Debug, Clone, Copy, PartialEq, Eq, Structural)]
pub enum FlagOp {
    TryBorrow,
    ReleaseBorrow,
    TryBorrowMut,
    ReleaseBorrowMut,
}

/// A checker's flag together with the number of shared and of exclusive
/// borrows that contexts hold.
pub type Holdings = (BorrowFlag, nat, nat);

/// No borrow held.
pub open spec fn no_holdings() -> Holdings {
    (BorrowFlag(UNUSED), 0, 0)
}

/// The effect of one step, as `increment`, `decrement`, `acquire_mut` and
/// `release_mut` state it; a release with no holder is never taken and
/// changes nothing.
pub open spec fn step(s: Holdings, op: FlagOp) -> Holdings {
    match op {
        FlagOp::TryBorrow => if s.0.admits_shared() {
            (s.0.spec_incremented(), s.1 + 1, s.2)
        } else {
            s
        },
        FlagOp::ReleaseBorrow => if s.1 >= 1 {
            (s.0.spec_decremented(), (s.1 - 1) as nat, s.2)
        } else {
            s
        },
        FlagOp::TryBorrowMut => if s.0.is_unused() {
            (BorrowFlag(HAS_MUTABLE_BORROW), s.1, s.2 + 1)
        } else {
            s
        },
        FlagOp::ReleaseBorrowMut => if s.2 >= 1 {
            (BorrowFlag(UNUSED), s.1, (s.2 - 1) as nat)
        } else {
            s
        },
    }
}

/// The holdings after the steps `ops`, in order, from `s`.
pub open spec fn run(s: Holdings, ops: Seq<FlagOp>) -> Holdings
    decreases ops.len(),
{
    if ops.len() == 0 {
        s
    } else {
        run(step(s, ops[0]), ops.drop_first())
    }
}

/// The flag tells the holdings exactly: either it counts the shared
/// borrows and no exclusive one is held, or it reads exclusive and the one
/// exclusive borrow is the only borrow.
pub open spec fn consistent(s: Holdings) -> bool {
    ||| (s.2 == 0 && !s.0.is_exclusive() && s.0.0 == s.1)
    ||| (s.2 == 1 && s.1 == 0 && s.0.is_exclusive())
}

proof fn lemma_step_consistent(s: Holdings, op: FlagOp)
    requires
        consistent(s),
    ensures
        consistent(step(s, op)),
{
}

/// Whatever the interleaving of borrow attempts and releases on one
/// checker, starting from no borrow, no shared borrow is ever held beside
/// an exclusive one, at most one exclusive borrow is held, and the flag
/// records exactly what is held.
pub proof fn lemma_mutual_exclusion(ops: Seq<FlagOp>)
    ensures
        consistent(run(no_holdings(), ops)),
        !(run(no_holdings(), ops).1 >= 1 && run(no_holdings(), ops).2 >= 1),
        run(no_holdings(), ops).2 <= 1,
        run(no_holdings(), ops).0.is_exclusive() <==> run(no_holdings(), ops).2 == 1,
        run(no_holdings(), ops).0.shared() == run(no_holdings(), ops).1,
{
    lemma_run_consistent(no_holdings(), ops);
}

proof fn lemma_run_consistent(s: Holdings, ops: Seq<FlagOp>)
    requires
        consistent(s),
    ensures
        consistent(run(s, ops)),
    decreases ops.len(),
{
    if ops.len() > 0 {
        lemma_step_consistent(s, ops[0]);
        lemma_run_consistent(step(s, ops[0]), ops.drop_first());
    }
}

/// An exclusive borrow is granted exactly when the flag reads unused; while
/// it is held, every further attempt, shared or exclusive, fails and leaves
/// the flag as it is, however many are made, until it is released.
pub proof fn lemma_exclusive_refuses_until_release(s: Holdings, ops: Seq<FlagOp>)
    requires
        consistent(s),
        forall|i: int| 0 <= i < ops.len() ==> ops[i] != FlagOp::ReleaseBorrowMut,
    ensures
        step(s, FlagOp::TryBorrowMut).2 == s.2 + 1 <==> s.0.is_unused(),
        s.2 == 1 ==> run(s, ops) == s,
    decreases ops.len(),
{
    if ops.len() > 0 && s.2 == 1 {
        assert(step(s, ops[0]) == s);
        lemma_exclusive_refuses_until_release(s, ops.drop_first());
    }
}

/// A step of a context in a round of "take the exclusive borrow, read the
/// shared counter, write it back plus one, release".
#[derive(Debug, Clone, Copy, PartialEq, Eq, Structural)]
pub enum CounterOp {
    TryBorrowMut(u64),
    Read(u64),
    Write(u64),
    ReleaseBorrowMut(u64),
}

/// Flag, holder, counter, value the holder read, whether it wrote, and the
/// number of successful exclusive borrows so far.
pub type CounterState = (BorrowFlag, Option<u64>, nat, Option<nat>, bool, nat);

pub open spec fn counter_start() -> CounterState {
    (BorrowFlag(UNUSED), None, 0, None, false, 0)
}

/// The effect of one step; a context touches the counter and releases only
/// while it holds the exclusive borrow.
pub open spec fn counter_step(s: CounterState, op: CounterOp) -> CounterState {
    match op {
        CounterOp::TryBorrowMut(c) => if s.0.is_unused() {
            (BorrowFlag(HAS_MUTABLE_BORROW), Some(c), s.2, None, false, s.5 + 1)
        } else {
            s
        },
        CounterOp::Read(c) => if s.1 == Some(c) && !s.4 {
            (s.0, s.1, s.2, Some(s.2), s.4, s.5)
        } else {
            s
        },
        CounterOp::Write(c) => if s.1 == Some(c) && !s.4 && s.3 is Some {
            (s.0, s.1, s.3->Some_0 + 1, s.3, true, s.5)
        } else {
            s
        },
        CounterOp::ReleaseBorrowMut(c) => if s.1 == Some(c) && s.4 {
            (BorrowFlag(UNUSED), None, s.2, None, false, s.5)
        } else {
            s
        },
    }
}

pub open spec fn counter_run(s: CounterState, ops: Seq<CounterOp>) -> CounterState
    decreases ops.len(),
{
    if ops.len() == 0 {
        s
    } else {
        counter_run(counter_step(s, ops[0]), ops.drop_first())
    }
}

pub open spec fn counter_consistent(s: CounterState) -> bool {
    &&& (s.1 is None <==> s.0.is_unused())
    &&& (s.1 is Some <==> s.0.is_exclusive())
    &&& (s.1 is None ==> s.2 == s.5 && s.3 is None && !s.4)
    &&& (s.1 is Some && !s.4 ==> s.2 + 1 == s.5 && (s.3 is Some ==> s.3->Some_0 == s.2))
    &&& (s.1 is Some && s.4 ==> s.2 == s.5)
}

proof fn lemma_counter_run(s: CounterState, ops: Seq<CounterOp>)
    requires
        counter_consistent(s),
    ensures
        counter_consistent(counter_run(s, ops)),
    decreases ops.len(),
{
    if ops.len() > 0 {
        lemma_counter_run(counter_step(s, ops[0]), ops.drop_first());
    }
}

/// However the rounds of any number of contexts interleave, whenever no
/// context holds the exclusive borrow the counter equals the number of
/// exclusive borrows granted: no update is lost and none is counted twice.
pub proof fn lemma_no_lost_updates(ops: Seq<CounterOp>)
    ensures
        counter_run(counter_start(), ops).1 is None ==> counter_run(counter_start(), ops).2
            == counter_run(counter_start(), ops).5,
{
    lemma_counter_run(counter_start(), ops);
}

} // verus!
