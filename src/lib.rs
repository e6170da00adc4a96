//! Runtime borrow checking, class mutability, object layout and teardown for
//! native values wrapped in host objects.
pub mod class_object;
pub mod flag;
pub mod info;
pub mod layout;
pub mod mutability;
pub mod pycell;
pub mod slots;
pub mod type_object;
pub mod weakref;
pub mod wrap;
