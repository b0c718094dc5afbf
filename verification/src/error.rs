use vstd::prelude::*;

verus! {

/// Why a container or one of its streams could not be decoded.
#[derive(Clone, Copy, Debug, PartialEq, Eq, Structural)]
pub enum DecodeError {
    /// The signature or the page size is not one this decoder accepts.
    MalformedContainer,
    /// An index points outside the table it refers to.
    OutOfRange,
    /// A declared length reaches past the end of the bytes at hand.
    TruncatedInput,
}

/// Why a field path could not be followed.
#[derive(Clone, Copy, Debug, PartialEq, Eq, Structural)]
pub enum PathError {
    /// The aggregate at hand has no field of that name.
    UnknownField,
    /// A segment asks for a field of something that is no struct or union.
    NotAggregate,
}

/// Why a query against a store gave no address.
#[derive(Clone, Copy, Debug, PartialEq, Eq, Structural)]
pub enum ResolveError {
    /// No symbol or root type of that name is in the store.
    NotFound,
    /// The root type was found, a later segment was not.
    Path(PathError),
}

} // verus!
