//! Per-instance slots of the contents block: the thread-affinity guard and
//! the dictionary slot.
use vstd::prelude::*;

verus! {

/// Access attempted from an execution context that may not touch the value.
#[derive(Debug)]
pub struct ThreadSafetyError {
    _private: (),
}

impl ThreadSafetyError {
    /// The fixed message that a host exception for this error carries.
    pub fn message(&self) -> (r: String)
        ensures
            r@ == "accessed from a thread other than the one that created it"@,
    {
        "accessed from a thread other than the one that created it".to_string()
    }
}

/// Records which execution context created a value; for a class declared
/// unsendable, only that context may use or finalize it.
#[derive(Debug, Clone, Copy, PartialEq, Eq, Structural)]
pub struct ThreadChecker {
    unsendable: bool,
    owner: u64,
}

impl ThreadChecker {
    pub closed spec fn spec_unsendable(self) -> bool {
        self.unsendable
    }

    pub closed spec fn spec_owner(self) -> u64 {
        self.owner
    }

    /// Whether context `thread` may use the value.
    pub open spec fn allows(self, thread: u64) -> bool {
        !self.spec_unsendable() || self.spec_owner() == thread
    }

    /// A guard for a value created by context `thread`.
    pub fn new(unsendable: bool, thread: u64) -> (r: ThreadChecker)
        ensures
            r.spec_unsendable() == unsendable,
            r.spec_owner() == thread,
    {
        ThreadChecker { unsendable, owner: thread }
    }

    /// Whether context `thread` may use the value.
    pub fn check(&self, thread: u64) -> (r: bool)
        ensures
            r == self.allows(thread),
    {
        !self.unsendable || self.owner == thread
    }

    /// Whether context `thread` may run the value's destructor.
    pub fn can_drop(&self, thread: u64) -> (r: bool)
        ensures
            r == self.allows(thread),
    {
        self.check(thread)
    }

    /// The non-panicking check: a typed failure for a disallowed context.
    pub fn check_threadsafe(&self, thread: u64) -> (r: Result<(), ThreadSafetyError>)
        ensures
            r is Ok <==> self.allows(thread),
    {
        if self.check(thread) {
            Ok(())
        } else {
            Err(ThreadSafetyError { _private: () })
        }
    }
}

/// The dictionary slot: absent, or present and holding a host dictionary.
#[derive(Debug, Clone, Copy, PartialEq, Eq, Structural)]
pub struct DictSlot {
    present: bool,
    dict: Option<u64>,
}

impl DictSlot {
    pub closed spec fn spec_present(self) -> bool {
        self.present
    }

    pub closed spec fn spec_dict(self) -> Option<u64> {
        self.dict
    }

    /// The slot of a class that opted into a dictionary or not; empty at first.
    pub fn new(present: bool) -> (r: DictSlot)
        ensures
            r.spec_present() == present,
            r.spec_dict() is None,
    {
        DictSlot { present, dict: None }
    }

    /// Stores the host dictionary `dict`; absent slots hold nothing.
    pub fn set_dict(&mut self, dict: u64)
        ensures
            final(self).spec_present() == old(self).spec_present(),
            final(self).spec_dict() == if old(self).spec_present() {
                Some(dict)
            } else {
                None::<u64>
            },
    {
        if self.present {
            self.dict = Some(dict);
        } else {
            self.dict = None;
        }
    }

    /// Releases the dictionary the slot holds, returning it.
    pub fn clear_dict(&mut self) -> (r: Option<u64>)
        ensures
            r == old(self).spec_dict(),
            final(self).spec_dict() is None,
            final(self).spec_present() == old(self).spec_present(),
    {
        self.dict.take()
    }
}

} // verus!
