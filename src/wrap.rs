//! Wrapping of default arguments and return values for the generated method
//! wrappers that call into this library.
use std::convert::Infallible;
use std::marker::PhantomData;
use vstd::prelude::*;

verus! {

/// Turns a default argument into an `Option`: a plain value becomes `Some`,
/// an `Option` stays as it is.
pub trait SomeWrap<T>: Sized {
    spec fn spec_wrap(self) -> Option<T>;

    fn wrap(self) -> (r: Option<T>)
        ensures
            r == self.spec_wrap(),
    ;
}

impl<T> SomeWrap<T> for T {
    open spec fn spec_wrap(self) -> Option<T> {
        Some(self)
    }

    fn wrap(self) -> (r: Option<T>) {
        Some(self)
    }
}

impl<T> SomeWrap<T> for Option<T> {
    open spec fn spec_wrap(self) -> Option<T> {
        self
    }

    fn wrap(self) -> (r: Option<T>) {
        self
    }
}

/// Values that convert to a host object with no failure of their own. A
/// `Result` is not one: its error is passed on.
pub trait IntoPy {}

/// Values that convert to a host object, possibly failing. A `Result` is
/// not one: its error is passed on.
pub trait IntoPyObject {}

impl IntoPy for () {}
impl IntoPy for bool {}
impl IntoPy for u8 {}
impl IntoPy for u16 {}
impl IntoPy for u32 {}
impl IntoPy for u64 {}
impl IntoPy for usize {}
impl IntoPy for i8 {}
impl IntoPy for i16 {}
impl IntoPy for i32 {}
impl IntoPy for i64 {}
impl IntoPy for isize {}
impl IntoPy for char {}
impl IntoPy for String {}
impl<T: IntoPy> IntoPy for Vec<T> {}
impl<T: IntoPy> IntoPy for Option<T> {}

impl<T: IntoPy> IntoPyObject for T {}

/// The chain of return-value converters, tried outermost first.
pub struct Converter<T>(EmptyTupleConverter<T>);

pub struct EmptyTupleConverter<T>(IntoPyObjectConverter<T>);

pub struct IntoPyObjectConverter<T>(IntoPyConverter<T>);

pub struct IntoPyConverter<T>(UnknownReturnResultType<T>);

pub struct UnknownReturnResultType<T>(UnknownReturnType<T>);

pub struct UnknownReturnType<T>(PhantomData<T>);

/// The converter chain for a return value of type `T`.
pub fn converter<T>(_value: &T) -> (r: Converter<T>) {
    Converter(
        EmptyTupleConverter(
            IntoPyObjectConverter(
                IntoPyConverter(UnknownReturnResultType(UnknownReturnType(PhantomData))),
            ),
        ),
    )
}

impl<T> Converter<T> {
    /// The next converter of the chain.
    pub fn inner(&self) -> (r: &EmptyTupleConverter<T>) {
        &self.0
    }
}

impl<T> EmptyTupleConverter<T> {
    /// The next converter of the chain.
    pub fn inner(&self) -> (r: &IntoPyObjectConverter<T>) {
        &self.0
    }
}

impl<T> IntoPyObjectConverter<T> {
    /// The next converter of the chain.
    pub fn inner(&self) -> (r: &IntoPyConverter<T>) {
        &self.0
    }
}

impl<T: IntoPyObject> IntoPyObjectConverter<T> {
    /// A return value that cannot fail becomes a success.
    pub fn wrap(&self, obj: T) -> (r: Result<T, Infallible>)
        ensures
            r == Ok::<T, Infallible>(obj),
    {
        Ok(obj)
    }
}

impl<T: IntoPyObject, E> IntoPyObjectConverter<Result<T, E>> {
    /// A fallible return value passes through unchanged.
    pub fn wrap(&self, obj: Result<T, E>) -> (r: Result<T, E>)
        ensures
            r == obj,
    {
        obj
    }
}

impl<T> IntoPyConverter<T> {
    /// The next converter of the chain.
    pub fn inner(&self) -> (r: &UnknownReturnResultType<T>) {
        &self.0
    }
}

impl<T: IntoPy, E> IntoPyConverter<Result<T, E>> {
    /// A fallible return value passes through unchanged.
    pub fn wrap(&self, obj: Result<T, E>) -> (r: Result<T, E>)
        ensures
            r == obj,
    {
        obj
    }
}

impl<T: IntoPy> IntoPyConverter<T> {
    /// A return value that cannot fail becomes a success.
    pub fn wrap(&self, obj: T) -> (r: Result<T, Infallible>)
        ensures
            r == Ok::<T, Infallible>(obj),
    {
        Ok(obj)
    }
}

} // verus!
