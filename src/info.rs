//! What a class declares about itself when it is registered.
use vstd::prelude::*;

verus! {

/// A class's declarations: mutability, optional slots, thread affinity, and
/// the size and alignment of its native value.
#[derive(Debug, Clone, Copy, PartialEq, Eq, Structural)]
pub struct PyClassInfo {
    /// Declared frozen (immutable).
    pub frozen: bool,
    /// Opted into a per-instance dictionary slot.
    pub dict: bool,
    /// Opted into a weak-reference slot.
    pub weakref: bool,
    /// Declared usable only from the context that created the value.
    pub unsendable: bool,
    /// Size in bytes of the wrapped value.
    pub value_size: usize,
    /// Alignment in bytes of the wrapped value.
    pub value_align: usize,
}

impl PyClassInfo {
    /// A class with a value of the given size and alignment, mutable, with no
    /// optional slots and no thread restriction.
    pub fn new(value_size: usize, value_align: usize) -> (r: PyClassInfo)
        ensures
            r == (PyClassInfo {
                frozen: false,
                dict: false,
                weakref: false,
                unsendable: false,
                value_size,
                value_align,
            }),
    {
        PyClassInfo {
            frozen: false,
            dict: false,
            weakref: false,
            unsendable: false,
            value_size,
            value_align,
        }
    }
}

/// The `frozen` declarations of a chain of classes, base first.
pub open spec fn frozen_of(classes: Seq<PyClassInfo>) -> Seq<bool> {
    classes.map_values(|c: PyClassInfo| c.frozen)
}

/// The `frozen` declarations of a chain of classes, base first.
pub fn frozen_flags(classes: &Vec<PyClassInfo>) -> (r: Vec<bool>)
    ensures
        r@ == frozen_of(classes@),
{
    let mut r: Vec<bool> = Vec::new();
    let mut i: usize = 0;
    while i < classes.len()
        invariant
            i <= classes@.len(),
            r@ == frozen_of(classes@.subrange(0, i as int)),
        decreases classes@.len() - i,
    {
        r.push(classes[i].frozen);
        assert(classes@.subrange(0, i + 1) =~= classes@.subrange(0, i as int).push(classes@[i as int]));
        i = i + 1;
    }
    assert(classes@.subrange(0, classes@.len() as int) =~= classes@);
    r
}

} // verus!
