//! Mutability tags: which class of an inheritance chain owns the borrow
//! checker, and which checker a class uses.
use std::marker::PhantomData;
use vstd::prelude::*;

verus! {

/// The mutability tag of a class, fixed when the class is registered.
#[derive(Debug, Clone, Copy, PartialEq, Eq, Structural)]
pub enum ClassMutability {
    /// No class of the chain up to here is mutable: no checker state at all.
    Immutable,
    /// The first mutable class of its chain: it owns the checker storage.
    Mutable,
    /// A mutable ancestor owns the checker; `frozen` is this class's own
    /// declaration.
    ExtendsMutableAncestor { frozen: bool },
}

impl ClassMutability {
    /// The tag of a class declared `frozen` or not, whose parent has this tag.
    pub open spec fn spec_child(self, frozen: bool) -> ClassMutability {
        match self {
            ClassMutability::Immutable => if frozen {
                ClassMutability::Immutable
            } else {
                ClassMutability::Mutable
            },
            _ => ClassMutability::ExtendsMutableAncestor { frozen },
        }
    }

    /// Whether instances of this class store the checker.
    pub open spec fn spec_owns_checker(self) -> bool {
        self is Mutable
    }

    /// Whether this class is governed by a counting checker (its own or an
    /// ancestor's) rather than the stateless one.
    pub open spec fn spec_has_checker(self) -> bool {
        !(self is Immutable)
    }

    /// Whether the class offers exclusive borrows at all.
    pub open spec fn spec_allows_mut(self) -> bool {
        match self {
            ClassMutability::Immutable => false,
            ClassMutability::Mutable => true,
            ClassMutability::ExtendsMutableAncestor { frozen } => !frozen,
        }
    }

    /// The tag of a class whose base is a host-native type.
    pub fn root(frozen: bool) -> (r: ClassMutability)
        ensures
            r == ClassMutability::Immutable.spec_child(frozen),
    {
        if frozen {
            ClassMutability::Immutable
        } else {
            ClassMutability::Mutable
        }
    }

    /// The tag of a subclass declared `frozen` or not.
    pub fn child(self, frozen: bool) -> (r: ClassMutability)
        ensures
            r == self.spec_child(frozen),
    {
        match self {
            ClassMutability::Immutable => ClassMutability::root(frozen),
            _ => ClassMutability::ExtendsMutableAncestor { frozen },
        }
    }

    /// The tag of a frozen subclass.
    pub fn immutable_child(self) -> (r: ClassMutability)
        ensures
            r == self.spec_child(true),
    {
        self.child(true)
    }

    /// The tag of a subclass that is not frozen.
    pub fn mutable_child(self) -> (r: ClassMutability)
        ensures
            r == self.spec_child(false),
    {
        self.child(false)
    }

    pub fn owns_checker(self) -> (r: bool)
        ensures
            r == self.spec_owns_checker(),
    {
        matches!(self, ClassMutability::Mutable)
    }

    pub fn has_checker(self) -> (r: bool)
        ensures
            r == self.spec_has_checker(),
    {
        !matches!(self, ClassMutability::Immutable)
    }

    pub fn allows_mut(self) -> (r: bool)
        ensures
            r == self.spec_allows_mut(),
    {
        match self {
            ClassMutability::Immutable => false,
            ClassMutability::Mutable => true,
            ClassMutability::ExtendsMutableAncestor { frozen } => !frozen,
        }
    }
}

/// Index of the first class of a chain (base first) that is not frozen, or
/// the chain's length if every class is frozen.
pub open spec fn first_mutable(frozen: Seq<bool>) -> int
    decreases frozen.len(),
{
    if frozen.len() == 0 {
        0
    } else if !frozen[0] {
        0
    } else {
        1 + first_mutable(frozen.drop_first())
    }
}

/// The tag of class `i` of a chain whose classes are declared `frozen`.
pub open spec fn tag_at(frozen: Seq<bool>, i: int) -> ClassMutability {
    if i < first_mutable(frozen) {
        ClassMutability::Immutable
    } else if i == first_mutable(frozen) {
        ClassMutability::Mutable
    } else {
        ClassMutability::ExtendsMutableAncestor { frozen: frozen[i] }
    }
}

/// The tags of a whole chain, base first.
pub open spec fn tags_of(frozen: Seq<bool>) -> Seq<ClassMutability> {
    Seq::new(frozen.len(), |i: int| tag_at(frozen, i))
}

/// Index of the class whose instance storage holds the checker that class
/// `i` uses, walking towards the base; `None` for the stateless checker.
pub open spec fn checker_owner(tags: Seq<ClassMutability>, i: int) -> Option<int>
    decreases i,
{
    if i < 0 || i >= tags.len() {
        None
    } else {
        match tags[i] {
            ClassMutability::Immutable => None,
            ClassMutability::Mutable => Some(i),
            ClassMutability::ExtendsMutableAncestor { .. } => if i == 0 {
                None
            } else {
                checker_owner(tags, i - 1)
            },
        }
    }
}

/// A tag sequence that some chain of declarations produces.
pub open spec fn well_formed_tags(tags: Seq<ClassMutability>) -> bool {
    exists|frozen: Seq<bool>| tags == tags_of(frozen)
}

proof fn lemma_first_mutable_bounds(frozen: Seq<bool>)
    ensures
        0 <= first_mutable(frozen) <= frozen.len(),
        forall|j: int| 0 <= j < first_mutable(frozen) ==> frozen[j],
        first_mutable(frozen) < frozen.len() ==> !frozen[first_mutable(frozen)],
    decreases frozen.len(),
{
    if frozen.len() > 0 && frozen[0] {
        let rest = frozen.drop_first();
        lemma_first_mutable_bounds(rest);
        assert forall|j: int| 0 <= j < first_mutable(frozen) implies frozen[j] by {
            if j > 0 {
                assert(frozen[j] == rest[j - 1]);
            }
        }
    }
}

/// Each class's tag is its parent's tag's child for its own declaration, and
/// the base class gets the tag of a class with a host-native base.
pub proof fn lemma_tags_follow_parents(frozen: Seq<bool>, i: int)
    requires
        0 <= i < frozen.len(),
    ensures
        i == 0 ==> tag_at(frozen, 0) == ClassMutability::Immutable.spec_child(frozen[0]),
        i > 0 ==> tag_at(frozen, i) == tag_at(frozen, i - 1).spec_child(frozen[i]),
{
    lemma_first_mutable_bounds(frozen);
}

/// Every class of a chain that has a counting checker resolves to the one
/// checker stored by the chain's first mutable class; the others resolve to
/// the stateless checker.
pub proof fn lemma_one_checker_per_chain(frozen: Seq<bool>, i: int)
    requires
        0 <= i < frozen.len(),
    ensures
        checker_owner(tags_of(frozen), i) == if i >= first_mutable(frozen) {
            Some(first_mutable(frozen))
        } else {
            None::<int>
        },
        tags_of(frozen)[i].spec_has_checker() <==> i >= first_mutable(frozen),
        0 <= first_mutable(frozen) <= frozen.len(),
    decreases i,
{
    lemma_first_mutable_bounds(frozen);
    let tags = tags_of(frozen);
    if i > first_mutable(frozen) {
        lemma_one_checker_per_chain(frozen, i - 1);
    }
}

/// The tags of a chain of classes, base first, from each class's `frozen`
/// declaration.
pub fn classify(frozen: &Vec<bool>) -> (r: Vec<ClassMutability>)
    ensures
        r@ == tags_of(frozen@),
{
    let mut r: Vec<ClassMutability> = Vec::new();
    let mut i: usize = 0;
    while i < frozen.len()
        invariant
            i <= frozen.len(),
            r@.len() == i,
            forall|j: int| 0 <= j < i ==> r@[j] == tag_at(frozen@, j),
        decreases frozen.len() - i,
    {
        proof {
            lemma_tags_follow_parents(frozen@, i as int);
        }
        let tag = if i == 0 {
            ClassMutability::root(frozen[i])
        } else {
            r[i - 1].child(frozen[i])
        };
        r.push(tag);
        i = i + 1;
    }
    assert(r@ =~= tags_of(frozen@));
    r
}

/// Index of the class whose storage holds the checker that class `level`
/// uses, found by walking towards the base; `None` for the stateless checker.
pub fn resolve_checker(tags: &Vec<ClassMutability>, level: usize) -> (r: Option<usize>)
    requires
        level < tags.len(),
    ensures
        r is Some <==> checker_owner(tags@, level as int) is Some,
        r is Some ==> checker_owner(tags@, level as int) == Some(r->Some_0 as int),
        r is Some ==> r->Some_0 <= level,
{
    let mut i: usize = level;
    loop
        invariant
            i <= level < tags.len(),
            checker_owner(tags@, i as int) == checker_owner(tags@, level as int),
        decreases i,
    {
        match tags[i] {
            ClassMutability::Immutable => {
                return None;
            },
            ClassMutability::Mutable => {
                return Some(i);
            },
            ClassMutability::ExtendsMutableAncestor { .. } => {
                if i == 0 {
                    return None;
                }
                i = i - 1;
            },
        }
    }
}

/// A class's declared mutability, as a type.
pub trait Mutability {
    spec fn spec_frozen() -> bool;

    fn frozen() -> (r: bool)
        ensures
            r == Self::spec_frozen(),
    ;
}

/// Declared mutable.
pub struct Mutable;

/// Declared frozen.
pub struct Immutable;

impl Mutability for Mutable {
    open spec fn spec_frozen() -> bool {
        false
    }

    fn frozen() -> (r: bool) {
        false
    }
}

impl Mutability for Immutable {
    open spec fn spec_frozen() -> bool {
        true
    }

    fn frozen() -> (r: bool) {
        true
    }
}

/// A class's mutability tag, as a type.
pub trait PyClassMutability {
    spec fn spec_tag() -> ClassMutability;

    fn tag() -> (r: ClassMutability)
        ensures
            r == Self::spec_tag(),
    ;
}

/// The tag `Immutable` as a type.
pub struct ImmutableClass(());

/// The tag `Mutable` as a type.
pub struct MutableClass(());

/// The tag `ExtendsMutableAncestor`, with the class's own declaration `M`.
pub struct ExtendsMutableAncestor<M: PyClassMutability>(PhantomData<M>);

impl PyClassMutability for ImmutableClass {
    open spec fn spec_tag() -> ClassMutability {
        ClassMutability::Immutable
    }

    fn tag() -> (r: ClassMutability) {
        ClassMutability::Immutable
    }
}

impl PyClassMutability for MutableClass {
    open spec fn spec_tag() -> ClassMutability {
        ClassMutability::Mutable
    }

    fn tag() -> (r: ClassMutability) {
        ClassMutability::Mutable
    }
}

impl<M: PyClassMutability> PyClassMutability for ExtendsMutableAncestor<M> {
    open spec fn spec_tag() -> ClassMutability {
        ClassMutability::ExtendsMutableAncestor { frozen: M::spec_tag() is Immutable }
    }

    fn tag() -> (r: ClassMutability) {
        let declared = M::tag();
        ClassMutability::ExtendsMutableAncestor { frozen: matches!(declared, ClassMutability::Immutable) }
    }
}

} // verus!
