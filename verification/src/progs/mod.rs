//! The interpreter's data: identifiers of interned strings and its errors.

pub mod outside;
pub mod string_table;

use vstd::prelude::*;

verus! {

/// The byte offset of an interned string in a string table.
#[derive(Clone, Copy, Debug, PartialEq, Eq, Hash, Structural)]
pub struct StringId(pub usize);

/// Errors of the interpreter's data.
#[derive(Clone, Copy, Debug, PartialEq, Eq, Structural)]
pub enum ProgsError {
    /// A string identifier was negative.
    NegativeStringId,
    /// No string starts at the given identifier.
    NoSuchString(i32),
}

} // verus!
