//! The failures that building and querying a view can report.

use vstd::prelude::*;

verus! {

/// Why a batch could not be built, or a component not read.
#[derive(Clone, Copy, PartialEq, Eq, Structural, Debug)]
pub enum QueryError {
    /// Row identifiers were given, and their number differs from that of the values.
    LengthMismatch,
    /// The view already holds a component of that name.
    DuplicateComponent,
    /// The view holds no component of that name.
    ComponentNotFound,
    /// The batch stores values of another type than the one asked for.
    TypeMismatch,
}

} // verus!
