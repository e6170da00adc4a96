//! The layout engine: where the contents block and its slots sit inside a
//! host allocation, for a fixed-size (static) host object and for one whose
//! per-class data the host appends (variable).
use crate::info::PyClassInfo;
use crate::mutability::ClassMutability;
use vstd::prelude::*;

verus! {

/// Size and alignment of a pointer-sized slot (dictionary, weak list,
/// checker flag, thread id) on the host.
pub const POINTER_SIZE: usize = 8;

/// The largest value of the host's signed size type.
pub const PY_SSIZE_MAX: usize = isize::MAX as usize;

/// Why a layout could not be computed at registration.
#[derive(Debug, Clone, Copy, PartialEq, Eq, Structural)]
pub enum LayoutError {
    /// A size or offset does not fit the host's signed size type.
    Overflow,
    /// An alignment of zero was declared.
    InvalidAlign,
}

/// An offset that the host stores for a type: from the start of the
/// instance, or from the start of the per-class data the host appends.
#[derive(Debug, Clone, Copy, PartialEq, Eq, Structural)]
pub enum PyObjectOffset {
    Absolute(isize),
    Relative(isize),
}

impl PyObjectOffset {
    /// The offset from the start of the instance, where the per-class data
    /// starts at `data_start`.
    pub open spec fn spec_resolve(self, data_start: int) -> int {
        match self {
            PyObjectOffset::Absolute(o) => o as int,
            PyObjectOffset::Relative(o) => data_start + o,
        }
    }

    /// The offset from the start of the instance, where the per-class data
    /// starts at `data_start`; `None` where it does not fit.
    pub fn resolve(self, data_start: isize) -> (r: Option<isize>)
        requires
            data_start >= 0,
        ensures
            r is Some <==> (self is Absolute || self.spec_resolve(data_start as int) <= PY_SSIZE_MAX),
            r is Some ==> r->Some_0 == self.spec_resolve(data_start as int),
    {
        match self {
            PyObjectOffset::Absolute(o) => Some(o),
            PyObjectOffset::Relative(o) => data_start.checked_add(o),
        }
    }
}

/// `value` as the host's signed size type, if it fits.
pub fn usize_to_py_ssize(value: usize) -> (r: Result<isize, LayoutError>)
    ensures
        r is Ok <==> value <= PY_SSIZE_MAX,
        r is Ok ==> r->Ok_0 == value,
        r is Err ==> r->Err_0 == LayoutError::Overflow,
{
    if value <= PY_SSIZE_MAX {
        Ok(value as isize)
    } else {
        Err(LayoutError::Overflow)
    }
}

/// `x` rounded up to a multiple of `a`.
pub open spec fn align_up(x: int, a: int) -> int {
    if x % a == 0 {
        x
    } else {
        x + (a - x % a)
    }
}

pub open spec fn max_of(a: int, b: int) -> int {
    if a >= b {
        a
    } else {
        b
    }
}

/// Size of a slot that is present or a zero-sized stand-in.
pub open spec fn slot_size(present: bool) -> int {
    if present {
        POINTER_SIZE as int
    } else {
        0
    }
}

/// Alignment of a slot that is present or a zero-sized stand-in.
pub open spec fn slot_align(present: bool) -> int {
    if present {
        POINTER_SIZE as int
    } else {
        1
    }
}

proof fn lemma_align_up(x: int, a: int)
    requires
        x >= 0,
        a >= 1,
    ensures
        x <= align_up(x, a) < x + a,
        align_up(x, a) % a == 0,
{
    assert(0 <= x % a < a) by (nonlinear_arith)
        requires
            x >= 0,
            a >= 1,
    ;
    if x % a != 0 {
        assert((x + (a - x % a)) % a == 0) by (nonlinear_arith)
            requires
                x >= 0,
                a >= 1,
        ;
    }
}

/// `x` rounded up to a multiple of `a`, if it fits the host's size type.
pub fn checked_align_up(x: usize, a: usize) -> (r: Result<usize, LayoutError>)
    requires
        a >= 1,
    ensures
        r is Ok <==> align_up(x as int, a as int) <= PY_SSIZE_MAX,
        r is Ok ==> r->Ok_0 == align_up(x as int, a as int),
        r is Err ==> r->Err_0 == LayoutError::Overflow,
{
    let rem = x % a;
    let up: u128 = if rem == 0 {
        x as u128
    } else {
        x as u128 + (a - rem) as u128
    };
    if up <= PY_SSIZE_MAX as u128 {
        Ok(up as usize)
    } else {
        Err(LayoutError::Overflow)
    }
}

/// Places a field of `size` bytes aligned to `align` after `end`; returns
/// its offset and the new end.
fn place(end: usize, size: usize, align: usize) -> (r: Result<(usize, usize), LayoutError>)
    requires
        align >= 1,
        end <= PY_SSIZE_MAX,
        size <= PY_SSIZE_MAX,
    ensures
        r is Ok <==> align_up(end as int, align as int) + size <= PY_SSIZE_MAX,
        r is Ok ==> r->Ok_0.0 == align_up(end as int, align as int) && r->Ok_0.1 == r->Ok_0.0
            + size,
        r is Err ==> r->Err_0 == LayoutError::Overflow,
{
    let off = checked_align_up(end, align)?;
    if size <= PY_SSIZE_MAX - off {
        Ok((off, off + size))
    } else {
        Err(LayoutError::Overflow)
    }
}

/// Where the fields of a contents block sit, relative to its start.
#[derive(Debug, Clone, Copy, PartialEq, Eq, Structural)]
pub struct ContentsLayout {
    pub size: usize,
    pub align: usize,
    pub checker_offset: usize,
    pub thread_offset: usize,
    pub dict_offset: usize,
    pub weakref_offset: usize,
}

/// The contents layout of class `info` with tag `tag`, in declaration order:
/// value, checker storage, thread guard, dictionary slot, weak-reference
/// slot, each at the next multiple of its alignment, the whole rounded up
/// to its largest alignment. `None` where a figure exceeds the host's size
/// type.
pub open spec fn contents_layout(info: PyClassInfo, tag: ClassMutability) -> Option<
    ContentsLayout,
> {
    let owns = tag is Mutable;
    let c_off = align_up(info.value_size as int, slot_align(owns));
    let t_off = align_up(c_off + slot_size(owns), slot_align(info.unsendable));
    let d_off = align_up(t_off + slot_size(info.unsendable), slot_align(info.dict));
    let w_off = align_up(d_off + slot_size(info.dict), slot_align(info.weakref));
    let end = w_off + slot_size(info.weakref);
    let align = max_of(
        max_of(info.value_align as int, slot_align(owns)),
        max_of(
            slot_align(info.unsendable),
            max_of(slot_align(info.dict), slot_align(info.weakref)),
        ),
    );
    let size = align_up(end, align);
    if info.value_align == 0 || size > PY_SSIZE_MAX {
        None
    } else {
        Some(
            ContentsLayout {
                size: size as usize,
                align: align as usize,
                checker_offset: c_off as usize,
                thread_offset: t_off as usize,
                dict_offset: d_off as usize,
                weakref_offset: w_off as usize,
            },
        )
    }
}

/// A contents layout whose fields lie inside it, in order.
pub open spec fn contents_fits(c: ContentsLayout, dict: bool, weakref: bool) -> bool {
    &&& c.align >= 1
    &&& c.dict_offset + slot_size(dict) <= c.weakref_offset
    &&& c.weakref_offset + slot_size(weakref) <= c.size
    &&& c.size <= PY_SSIZE_MAX
}

proof fn lemma_contents_fits(info: PyClassInfo, tag: ClassMutability)
    requires
        contents_layout(info, tag) is Some,
    ensures
        contents_fits(contents_layout(info, tag)->Some_0, info.dict, info.weakref),
{
    let c = contents_layout(info, tag)->Some_0;
    let owns = tag is Mutable;
    let c_off = align_up(info.value_size as int, slot_align(owns));
    let t_off = align_up(c_off + slot_size(owns), slot_align(info.unsendable));
    let d_off = align_up(t_off + slot_size(info.unsendable), slot_align(info.dict));
    let w_off = align_up(d_off + slot_size(info.dict), slot_align(info.weakref));
    lemma_align_up(info.value_size as int, slot_align(owns));
    lemma_align_up(c_off + slot_size(owns), slot_align(info.unsendable));
    lemma_align_up(t_off + slot_size(info.unsendable), slot_align(info.dict));
    lemma_align_up(d_off + slot_size(info.dict), slot_align(info.weakref));
    lemma_align_up(w_off + slot_size(info.weakref), c.align as int);
}

/// The contents layout of class `info` with tag `tag`.
pub fn compute_contents(info: PyClassInfo, tag: ClassMutability) -> (r: Result<
    ContentsLayout,
    LayoutError,
>)
    ensures
        r is Ok <==> contents_layout(info, tag) is Some,
        r is Ok ==> r->Ok_0 == contents_layout(info, tag)->Some_0 && contents_fits(r->Ok_0, info.dict, info.weakref),
        r is Err ==> (r->Err_0 == LayoutError::InvalidAlign <==> info.value_align == 0),
{
    if info.value_align == 0 {
        return Err(LayoutError::InvalidAlign);
    }
    let owns = tag.owns_checker();
    let ghost c_off_s = align_up(info.value_size as int, slot_align(owns));
    let ghost t_off_s = align_up(c_off_s + slot_size(owns), slot_align(info.unsendable));
    let ghost d_off_s = align_up(t_off_s + slot_size(info.unsendable), slot_align(info.dict));
    let ghost w_off_s = align_up(d_off_s + slot_size(info.dict), slot_align(info.weakref));
    let ghost end_s = w_off_s + slot_size(info.weakref);
    proof {
        lemma_align_up(info.value_size as int, slot_align(owns));
        lemma_align_up(c_off_s + slot_size(owns), slot_align(info.unsendable));
        lemma_align_up(t_off_s + slot_size(info.unsendable), slot_align(info.dict));
        lemma_align_up(d_off_s + slot_size(info.dict), slot_align(info.weakref));
    }
    let align = {
        let a1 = if info.value_align >= slot_align_of(owns) {
            info.value_align
        } else {
            slot_align_of(owns)
        };
        let a2 = if slot_align_of(info.dict) >= slot_align_of(info.weakref) {
            slot_align_of(info.dict)
        } else {
            slot_align_of(info.weakref)
        };
        let a3 = if slot_align_of(info.unsendable) >= a2 {
            slot_align_of(info.unsendable)
        } else {
            a2
        };
        if a1 >= a3 {
            a1
        } else {
            a3
        }
    };
    proof {
        lemma_align_up(end_s, align as int);
    }
    if info.value_size > PY_SSIZE_MAX {
        return Err(LayoutError::Overflow);
    }
    let (checker_offset, c_end) = place(info.value_size, slot_size_of(owns), slot_align_of(owns))?;
    let (thread_offset, t_end) = place(
        c_end,
        slot_size_of(info.unsendable),
        slot_align_of(info.unsendable),
    )?;
    let (dict_offset, d_end) = place(t_end, slot_size_of(info.dict), slot_align_of(info.dict))?;
    let (weakref_offset, w_end) = place(
        d_end,
        slot_size_of(info.weakref),
        slot_align_of(info.weakref),
    )?;
    let size = checked_align_up(w_end, align)?;
    proof {
        lemma_contents_fits(info, tag);
    }
    Ok(
        ContentsLayout {
            size,
            align,
            checker_offset,
            thread_offset,
            dict_offset,
            weakref_offset,
        },
    )
}

fn slot_size_of(present: bool) -> (r: usize)
    ensures
        r == slot_size(present),
{
    if present {
        POINTER_SIZE
    } else {
        0
    }
}

fn slot_align_of(present: bool) -> (r: usize)
    ensures
        r == slot_align(present),
{
    if present {
        POINTER_SIZE
    } else {
        1
    }
}

/// What every layer of a host object reports to the host.
pub trait PyClassObjectLayout {
    /// The layer's figures fit the host's size type.
    spec fn layout_ok(&self) -> bool;

    /// Size in bytes of this layer and those below it (negative: extra bytes
    /// the host appends per instance).
    spec fn spec_basicsize(&self) -> int;

    /// Alignment of this layer.
    spec fn spec_align(&self) -> int;

    /// The size the host's type registration receives.
    fn basicsize(&self) -> (r: isize)
        requires
            self.layout_ok(),
        ensures
            r == self.spec_basicsize(),
    ;

    fn align(&self) -> (r: usize)
        ensures
            r == self.spec_align(),
    ;
}

/// The offsets of a class's contents block and slots.
pub trait InternalPyClassObjectLayout: PyClassObjectLayout {
    spec fn spec_contents_offset(&self) -> PyObjectOffset;

    spec fn spec_dict_offset(&self) -> Option<PyObjectOffset>;

    spec fn spec_weaklist_offset(&self) -> Option<PyObjectOffset>;

    /// Where the contents block starts.
    fn contents_offset(&self) -> (r: PyObjectOffset)
        requires
            self.layout_ok(),
        ensures
            r == self.spec_contents_offset(),
    ;

    /// Where the dictionary slot is, if the class has one.
    fn dict_offset(&self) -> (r: Option<PyObjectOffset>)
        requires
            self.layout_ok(),
        ensures
            r == self.spec_dict_offset(),
    ;

    /// Where the weak-reference slot is, if the class has one.
    fn weaklist_offset(&self) -> (r: Option<PyObjectOffset>)
        requires
            self.layout_ok(),
        ensures
            r == self.spec_weaklist_offset(),
    ;
}

/// A host-native base with a fixed size.
#[derive(Debug, Clone, Copy, PartialEq, Eq, Structural)]
pub struct PyClassObjectBase {
    basicsize: usize,
    align: usize,
}

/// A host-native base of variable size: classes over it use the variable
/// strategy.
#[derive(Debug, Clone, Copy, PartialEq, Eq, Structural)]
pub struct PyVariableClassObjectBase {
    basicsize: usize,
    align: usize,
}

impl PyClassObjectBase {
    /// The figures of a base that fits the host's size type.
    pub proof fn lemma_bounds(&self)
        requires
            self.layout_ok(),
        ensures
            1 <= self.spec_align() <= usize::MAX,
            0 <= self.spec_basicsize() <= PY_SSIZE_MAX,
    {
    }

    /// A native base of `basicsize` bytes aligned to `align`.
    pub fn new(basicsize: usize, align: usize) -> (r: Result<PyClassObjectBase, LayoutError>)
        ensures
            r is Ok <==> align >= 1 && basicsize <= PY_SSIZE_MAX,
            r is Ok ==> r->Ok_0.spec_basicsize() == basicsize && r->Ok_0.spec_align() == align
                && r->Ok_0.layout_ok(),
            r is Err ==> (r->Err_0 == LayoutError::InvalidAlign <==> align == 0),
    {
        if align == 0 {
            Err(LayoutError::InvalidAlign)
        } else if basicsize > PY_SSIZE_MAX {
            Err(LayoutError::Overflow)
        } else {
            Ok(PyClassObjectBase { basicsize, align })
        }
    }
}

impl PyVariableClassObjectBase {
    /// A variable-size native base of `basicsize` bytes aligned to `align`.
    pub fn new(basicsize: usize, align: usize) -> (r: Result<PyVariableClassObjectBase, LayoutError>)
        ensures
            r is Ok <==> align >= 1 && basicsize <= PY_SSIZE_MAX,
            r is Ok ==> r->Ok_0.spec_basicsize() == basicsize && r->Ok_0.spec_align() == align
                && r->Ok_0.layout_ok(),
            r is Err ==> (r->Err_0 == LayoutError::InvalidAlign <==> align == 0),
    {
        if align == 0 {
            Err(LayoutError::InvalidAlign)
        } else if basicsize > PY_SSIZE_MAX {
            Err(LayoutError::Overflow)
        } else {
            Ok(PyVariableClassObjectBase { basicsize, align })
        }
    }
}

impl PyClassObjectLayout for PyClassObjectBase {
    closed spec fn layout_ok(&self) -> bool {
        self.basicsize <= PY_SSIZE_MAX && self.align >= 1
    }

    closed spec fn spec_basicsize(&self) -> int {
        self.basicsize as int
    }

    closed spec fn spec_align(&self) -> int {
        self.align as int
    }

    fn basicsize(&self) -> (r: isize) {
        self.basicsize as isize
    }

    fn align(&self) -> (r: usize) {
        self.align
    }
}

impl PyClassObjectLayout for PyVariableClassObjectBase {
    closed spec fn layout_ok(&self) -> bool {
        self.basicsize <= PY_SSIZE_MAX && self.align >= 1
    }

    closed spec fn spec_basicsize(&self) -> int {
        self.basicsize as int
    }

    closed spec fn spec_align(&self) -> int {
        self.align as int
    }

    fn basicsize(&self) -> (r: isize) {
        self.basicsize as isize
    }

    fn align(&self) -> (r: usize) {
        self.align
    }
}

/// The static strategy: the contents block is a field after the base
/// layer, at the base's size rounded up to the block's alignment, and the
/// whole is rounded up to the larger alignment.
#[derive(Debug, Clone, Copy, PartialEq, Eq, Structural)]
pub struct PyStaticClassObject {
    pub contents: ContentsLayout,
    pub contents_offset: usize,
    pub basicsize: usize,
    pub align: usize,
    pub dict: bool,
    pub weakref: bool,
}

/// The static layout of class `info` (tag `tag`) over a layer of
/// `base_size` bytes aligned to `base_align`.
pub open spec fn static_layout(
    base_size: int,
    base_align: int,
    info: PyClassInfo,
    tag: ClassMutability,
) -> Option<PyStaticClassObject> {
    match contents_layout(info, tag) {
        None => None,
        Some(c) => {
            let co = align_up(base_size, c.align as int);
            let al = max_of(base_align, c.align as int);
            let bs = align_up(co + c.size, al);
            if bs > PY_SSIZE_MAX {
                None
            } else {
                Some(
                    PyStaticClassObject {
                        contents: c,
                        contents_offset: co as usize,
                        basicsize: bs as usize,
                        align: al as usize,
                        dict: info.dict,
                        weakref: info.weakref,
                    },
                )
            }
        },
    }
}

impl PyStaticClassObject {
    /// The static layout of class `info` (tag `tag`) over `base`.
    pub fn new<B: PyClassObjectLayout>(base: &B, info: PyClassInfo, tag: ClassMutability) -> (r:
        Result<PyStaticClassObject, LayoutError>)
        requires
            base.spec_align() >= 1,
            0 <= base.spec_basicsize() <= PY_SSIZE_MAX,
            base.layout_ok(),
        ensures
            r is Ok ==> r->Ok_0.layout_ok(),
            r is Ok <==> static_layout(base.spec_basicsize(), base.spec_align(), info, tag) is Some,
            r is Ok ==> r->Ok_0 == static_layout(
                base.spec_basicsize(),
                base.spec_align(),
                info,
                tag,
            )->Some_0,
            r is Err ==> (r->Err_0 == LayoutError::InvalidAlign <==> info.value_align == 0),
    {
        let contents = compute_contents(info, tag)?;
        let base_size = base.basicsize() as usize;
        let base_align = base.align();
        proof {
            lemma_align_up(base_size as int, contents.align as int);
        }
        let contents_offset = checked_align_up(base_size, contents.align)?;
        let align = if base_align >= contents.align {
            base_align
        } else {
            contents.align
        };
        if contents.size > PY_SSIZE_MAX - contents_offset {
            proof {
                lemma_align_up(contents_offset + contents.size, align as int);
            }
            return Err(LayoutError::Overflow);
        }
        let basicsize = checked_align_up(contents_offset + contents.size, align)?;
        Ok(
            PyStaticClassObject {
                contents,
                contents_offset,
                basicsize,
                align,
                dict: info.dict,
                weakref: info.weakref,
            },
        )
    }
}

impl PyClassObjectLayout for PyStaticClassObject {
    open spec fn layout_ok(&self) -> bool {
        &&& contents_fits(self.contents, self.dict, self.weakref)
        &&& self.contents_offset + self.contents.size <= self.basicsize
        &&& self.basicsize <= PY_SSIZE_MAX
    }

    open spec fn spec_basicsize(&self) -> int {
        self.basicsize as int
    }

    open spec fn spec_align(&self) -> int {
        self.align as int
    }

    fn basicsize(&self) -> (r: isize) {
        self.basicsize as isize
    }

    fn align(&self) -> (r: usize) {
        self.align
    }
}

impl InternalPyClassObjectLayout for PyStaticClassObject {
    open spec fn spec_contents_offset(&self) -> PyObjectOffset {
        PyObjectOffset::Absolute(self.contents_offset as isize)
    }

    open spec fn spec_dict_offset(&self) -> Option<PyObjectOffset> {
        if self.dict {
            Some(
                PyObjectOffset::Absolute((self.contents_offset + self.contents.dict_offset) as isize),
            )
        } else {
            None
        }
    }

    open spec fn spec_weaklist_offset(&self) -> Option<PyObjectOffset> {
        if self.weakref {
            Some(
                PyObjectOffset::Absolute(
                    (self.contents_offset + self.contents.weakref_offset) as isize,
                ),
            )
        } else {
            None
        }
    }

    fn contents_offset(&self) -> (r: PyObjectOffset) {
        PyObjectOffset::Absolute(self.contents_offset as isize)
    }

    fn dict_offset(&self) -> (r: Option<PyObjectOffset>) {
        if self.dict {
            Some(PyObjectOffset::Absolute((self.contents_offset + self.contents.dict_offset) as isize))
        } else {
            None
        }
    }

    fn weaklist_offset(&self) -> (r: Option<PyObjectOffset>) {
        if self.weakref {
            Some(
                PyObjectOffset::Absolute(
                    (self.contents_offset + self.contents.weakref_offset) as isize,
                ),
            )
        } else {
            None
        }
    }
}

/// The variable strategy: the host appends the contents block to each
/// instance and hands out its address; offsets are relative to it.
#[derive(Debug, Clone, Copy, PartialEq, Eq, Structural)]
pub struct PyVariableClassObject {
    pub contents: ContentsLayout,
    pub dict: bool,
    pub weakref: bool,
}

/// The variable layout of class `info` with tag `tag`.
pub open spec fn variable_layout(info: PyClassInfo, tag: ClassMutability) -> Option<
    PyVariableClassObject,
> {
    match contents_layout(info, tag) {
        None => None,
        Some(c) => Some(PyVariableClassObject { contents: c, dict: info.dict, weakref: info.weakref }),
    }
}

impl PyVariableClassObject {
    /// The variable layout of class `info` with tag `tag`.
    pub fn new(info: PyClassInfo, tag: ClassMutability) -> (r: Result<
        PyVariableClassObject,
        LayoutError,
    >)
        ensures
            r is Ok <==> variable_layout(info, tag) is Some,
            r is Ok ==> r->Ok_0 == variable_layout(info, tag)->Some_0 && r->Ok_0.layout_ok(),
            r is Err ==> (r->Err_0 == LayoutError::InvalidAlign <==> info.value_align == 0),
    {
        let contents = compute_contents(info, tag)?;
        Ok(PyVariableClassObject { contents, dict: info.dict, weakref: info.weakref })
    }
}

impl PyClassObjectLayout for PyVariableClassObject {
    open spec fn layout_ok(&self) -> bool {
        contents_fits(self.contents, self.dict, self.weakref)
    }

    open spec fn spec_basicsize(&self) -> int {
        -(self.contents.size as int)
    }

    open spec fn spec_align(&self) -> int {
        self.contents.align as int
    }

    fn basicsize(&self) -> (r: isize) {
        -(self.contents.size as isize)
    }

    fn align(&self) -> (r: usize) {
        self.contents.align
    }
}

impl InternalPyClassObjectLayout for PyVariableClassObject {
    open spec fn spec_contents_offset(&self) -> PyObjectOffset {
        PyObjectOffset::Relative(0)
    }

    open spec fn spec_dict_offset(&self) -> Option<PyObjectOffset> {
        if self.dict {
            Some(PyObjectOffset::Relative(self.contents.dict_offset as isize))
        } else {
            None
        }
    }

    open spec fn spec_weaklist_offset(&self) -> Option<PyObjectOffset> {
        if self.weakref {
            Some(PyObjectOffset::Relative(self.contents.weakref_offset as isize))
        } else {
            None
        }
    }

    fn contents_offset(&self) -> (r: PyObjectOffset) {
        PyObjectOffset::Relative(0)
    }

    fn dict_offset(&self) -> (r: Option<PyObjectOffset>) {
        if self.dict {
            Some(PyObjectOffset::Relative(self.contents.dict_offset as isize))
        } else {
            None
        }
    }

    fn weaklist_offset(&self) -> (r: Option<PyObjectOffset>) {
        if self.weakref {
            Some(PyObjectOffset::Relative(self.contents.weakref_offset as isize))
        } else {
            None
        }
    }
}

/// The static layouts of the first `n` classes of a chain over a native
/// base of `base_size` bytes aligned to `base_align`, each class laid out
/// over the one before it; `None` where some layer does not fit.
pub open spec fn chain_layouts(
    base_size: int,
    base_align: int,
    classes: Seq<PyClassInfo>,
    tags: Seq<ClassMutability>,
    n: int,
) -> Option<Seq<PyStaticClassObject>>
    decreases n,
{
    if n <= 0 {
        Some(seq![])
    } else {
        match chain_layouts(base_size, base_align, classes, tags, n - 1) {
            None => None,
            Some(ls) => {
                let (size, align) = if n == 1 {
                    (base_size, base_align)
                } else {
                    (ls[n - 2].basicsize as int, ls[n - 2].align as int)
                };
                match static_layout(size, align, classes[n - 1], tags[n - 1]) {
                    None => None,
                    Some(l) => Some(ls.push(l)),
                }
            },
        }
    }
}

proof fn lemma_static_layout_facts(base_size: int, base_align: int, info: PyClassInfo, tag: ClassMutability)
    requires
        0 <= base_size,
        1 <= base_align <= usize::MAX,
        static_layout(base_size, base_align, info, tag) is Some,
    ensures
        ({
            let l = static_layout(base_size, base_align, info, tag)->Some_0;
            &&& base_size <= l.contents_offset
            &&& l.contents_offset + l.contents.size <= l.basicsize <= PY_SSIZE_MAX
            &&& l.align >= 1
            &&& contents_fits(l.contents, info.dict, info.weakref)
            &&& l.dict == info.dict && l.weakref == info.weakref
        }),
{
    let c = contents_layout(info, tag)->Some_0;
    lemma_contents_fits(info, tag);
    lemma_align_up(base_size, c.align as int);
    let co = align_up(base_size, c.align as int);
    lemma_align_up(co + c.size, max_of(base_align, c.align as int));
}

/// Facts of each layer of a computed chain.
pub open spec fn chain_layer_ok(
    base_size: int,
    ls: Seq<PyStaticClassObject>,
    classes: Seq<PyClassInfo>,
    i: int,
) -> bool {
    &&& (if i == 0 {
        base_size
    } else {
        ls[i - 1].basicsize as int
    }) <= ls[i].contents_offset
    &&& ls[i].contents_offset + ls[i].contents.size <= ls[i].basicsize <= PY_SSIZE_MAX
    &&& ls[i].align >= 1
    &&& contents_fits(ls[i].contents, classes[i].dict, classes[i].weakref)
    &&& ls[i].dict == classes[i].dict
    &&& ls[i].weakref == classes[i].weakref
}

proof fn lemma_chain_facts(
    base_size: int,
    base_align: int,
    classes: Seq<PyClassInfo>,
    tags: Seq<ClassMutability>,
    n: int,
)
    requires
        0 <= base_size,
        1 <= base_align <= usize::MAX,
        0 <= n <= classes.len(),
        n <= tags.len(),
        chain_layouts(base_size, base_align, classes, tags, n) is Some,
    ensures
        chain_layouts(base_size, base_align, classes, tags, n)->Some_0.len() == n,
        forall|i: int|
            0 <= i < n ==> #[trigger] chain_layer_ok(
                base_size,
                chain_layouts(base_size, base_align, classes, tags, n)->Some_0,
                classes,
                i,
            ),
    decreases n,
{
    if n > 0 {
        lemma_chain_facts(base_size, base_align, classes, tags, n - 1);
        let ls = chain_layouts(base_size, base_align, classes, tags, n - 1)->Some_0;
        let full = chain_layouts(base_size, base_align, classes, tags, n)->Some_0;
        let (size, align) = if n == 1 {
            (base_size, base_align)
        } else {
            (ls[n - 2].basicsize as int, ls[n - 2].align as int)
        };
        if n > 1 {
            assert(chain_layer_ok(base_size, ls, classes, n - 2));
        }
        lemma_static_layout_facts(size, align, classes[n - 1], tags[n - 1]);
        assert forall|i: int| 0 <= i < n implies #[trigger] chain_layer_ok(
            base_size,
            full,
            classes,
            i,
        ) by {
            if i < n - 1 {
                assert(chain_layer_ok(base_size, ls, classes, i));
                assert(full[i] == ls[i]);
                if i > 0 {
                    assert(full[i - 1] == ls[i - 1]);
                }
            } else {
                if n > 1 {
                    assert(full[n - 2] == ls[n - 2]);
                }
            }
        }
    }
}

/// The static layouts of a whole chain of classes with tags `tags` over the
/// native base `base`.
pub fn static_chain(
    base: &PyClassObjectBase,
    classes: &Vec<PyClassInfo>,
    tags: &Vec<ClassMutability>,
) -> (r: Result<Vec<PyStaticClassObject>, LayoutError>)
    requires
        base.layout_ok(),
        base.spec_align() >= 1,
        base.spec_basicsize() >= 0,
        tags@.len() == classes@.len(),
    ensures
        r is Ok <==> chain_layouts(
            base.spec_basicsize(),
            base.spec_align(),
            classes@,
            tags@,
            classes@.len() as int,
        ) is Some,
        r is Ok ==> r->Ok_0@ == chain_layouts(
            base.spec_basicsize(),
            base.spec_align(),
            classes@,
            tags@,
            classes@.len() as int,
        )->Some_0,
{
    let ghost bs = base.spec_basicsize();
    let ghost ba = base.spec_align();
    let mut out: Vec<PyStaticClassObject> = Vec::new();
    let mut i: usize = 0;
    while i < classes.len()
        invariant
            i <= classes@.len(),
            tags@.len() == classes@.len(),
            bs == base.spec_basicsize(),
            ba == base.spec_align(),
            base.layout_ok(),
            ba >= 1,
            bs >= 0,
            chain_layouts(bs, ba, classes@, tags@, i as int) == Some(out@),
        decreases classes@.len() - i,
    {
        proof {
            lemma_chain_facts(bs, ba, classes@, tags@, i as int);
        }
        let layer = if i == 0 {
            PyStaticClassObject::new(base, classes[i], tags[i])
        } else {
            assert(chain_layer_ok(bs, out@, classes@, i - 1));
            PyStaticClassObject::new(&out[i - 1], classes[i], tags[i])
        };
        match layer {
            Ok(l) => {
                out.push(l);
            },
            Err(e) => {
                proof {
                    lemma_chain_none_stays(bs, ba, classes@, tags@, i + 1, classes@.len() as int);
                }
                return Err(e);
            },
        }
        i = i + 1;
    }
    Ok(out)
}

proof fn lemma_chain_none_stays(
    base_size: int,
    base_align: int,
    classes: Seq<PyClassInfo>,
    tags: Seq<ClassMutability>,
    k: int,
    n: int,
)
    requires
        1 <= k <= n,
        chain_layouts(base_size, base_align, classes, tags, k) is None,
    ensures
        chain_layouts(base_size, base_align, classes, tags, n) is None,
    decreases n - k,
{
    if k < n {
        lemma_chain_none_stays(base_size, base_align, classes, tags, k + 1, n);
    }
}

proof fn lemma_chain_monotone(base_size: int, ls: Seq<PyStaticClassObject>, classes: Seq<PyClassInfo>, i: int, j: int)
    requires
        0 <= i < j < ls.len(),
        forall|k: int| 0 <= k < ls.len() ==> #[trigger] chain_layer_ok(base_size, ls, classes, k),
    ensures
        ls[i].contents_offset + ls[i].contents.size <= ls[i].basicsize <= ls[j].contents_offset,
    decreases j - i,
{
    assert(chain_layer_ok(base_size, ls, classes, i));
    assert(chain_layer_ok(base_size, ls, classes, j));
    if j > i + 1 {
        lemma_chain_monotone(base_size, ls, classes, i, j - 1);
        assert(chain_layer_ok(base_size, ls, classes, j - 1));
    }
}

/// In a chain laid out with the static strategy, the most-derived class's
/// dictionary and weak-reference slots (where it has them) lie inside the
/// instance, after the contents block of every ancestor, and where the
/// variable strategy puts them once its relative offsets are taken from the
/// start of that class's contents block.
pub proof fn lemma_leaf_slots_placement(
    base_size: int,
    base_align: int,
    classes: Seq<PyClassInfo>,
    tags: Seq<ClassMutability>,
)
    requires
        0 <= base_size <= PY_SSIZE_MAX,
        1 <= base_align <= usize::MAX,
        classes.len() >= 1,
        tags.len() == classes.len(),
        chain_layouts(base_size, base_align, classes, tags, classes.len() as int) is Some,
    ensures
        ({
            let ls = chain_layouts(base_size, base_align, classes, tags, classes.len() as int)->Some_0;
            let n = classes.len() as int;
            let leaf = ls[n - 1];
            let var = variable_layout(classes[n - 1], tags[n - 1]);
            let d = leaf.contents_offset + leaf.contents.dict_offset;
            let w = leaf.contents_offset + leaf.contents.weakref_offset;
            &&& var is Some
            &&& classes[n - 1].dict ==> {
                &&& leaf.spec_dict_offset() == Some(PyObjectOffset::Absolute(d as isize))
                &&& 0 <= d && d + POINTER_SIZE <= leaf.basicsize
                &&& forall|i: int| 0 <= i < n - 1 ==> ls[i].contents_offset + ls[i].contents.size <= d
                &&& var->Some_0.spec_dict_offset() is Some
                &&& var->Some_0.spec_dict_offset()->Some_0.spec_resolve(leaf.contents_offset as int) == d
            }
            &&& classes[n - 1].weakref ==> {
                &&& leaf.spec_weaklist_offset() == Some(PyObjectOffset::Absolute(w as isize))
                &&& 0 <= w && w + POINTER_SIZE <= leaf.basicsize
                &&& forall|i: int| 0 <= i < n - 1 ==> ls[i].contents_offset + ls[i].contents.size <= w
                &&& var->Some_0.spec_weaklist_offset() is Some
                &&& var->Some_0.spec_weaklist_offset()->Some_0.spec_resolve(leaf.contents_offset as int) == w
            }
        }),
{
    let n = classes.len() as int;
    lemma_chain_facts(base_size, base_align, classes, tags, n);
    let ls = chain_layouts(base_size, base_align, classes, tags, n)->Some_0;
    assert(chain_layer_ok(base_size, ls, classes, n - 1));
    assert forall|i: int| 0 <= i < n - 1 implies ls[i].contents_offset + ls[i].contents.size
        <= ls[n - 1].contents_offset by {
        lemma_chain_monotone(base_size, ls, classes, i, n - 1);
    }
    let prev = chain_layouts(base_size, base_align, classes, tags, n - 1)->Some_0;
    let (size, align) = if n == 1 {
        (base_size, base_align)
    } else {
        (prev[n - 2].basicsize as int, prev[n - 2].align as int)
    };
    assert(static_layout(size, align, classes[n - 1], tags[n - 1]) is Some);
    assert(contents_layout(classes[n - 1], tags[n - 1]) is Some);
}

/// Every layer of a computed chain fits the host's size type.
pub proof fn lemma_chain_layouts_ok(
    base_size: int,
    base_align: int,
    classes: Seq<PyClassInfo>,
    tags: Seq<ClassMutability>,
)
    requires
        0 <= base_size,
        1 <= base_align <= usize::MAX,
        tags.len() == classes.len(),
        chain_layouts(base_size, base_align, classes, tags, classes.len() as int) is Some,
    ensures
        chain_layouts(base_size, base_align, classes, tags, classes.len() as int)->Some_0.len()
            == classes.len(),
        forall|i: int|
            0 <= i < classes.len() ==> (#[trigger] chain_layouts(
                base_size,
                base_align,
                classes,
                tags,
                classes.len() as int,
            )->Some_0[i]).layout_ok(),
{
    let n = classes.len() as int;
    lemma_chain_facts(base_size, base_align, classes, tags, n);
    let ls = chain_layouts(base_size, base_align, classes, tags, n)->Some_0;
    assert forall|i: int| 0 <= i < n implies (#[trigger] ls[i]).layout_ok() by {
        assert(chain_layer_ok(base_size, ls, classes, i));
    }
}

} // verus!
