//! The error taxonomy of the bridge.
//!
//! Configuration errors come from parsing declarative descriptions;
//! load-time errors abort a whole load; call-time errors surface
//! synchronously from an invocation.  A fault inside the native call itself
//! (an illegal memory access, an abort) is not represented here: it is fatal
//! to the process and outside the bridge's recovery domain.

use vstd::prelude::*;
use crate::types::TypeTag;
use crate::value::ValueKind;

verus! {

/// An error while parsing a declarative type or symbol description.
#[derive(Debug, Clone, Copy, PartialEq, Eq, Structural)]
pub enum ConfigError {
    /// A type description held an unrecognized name token or an
    /// unsupported shape.
    InvalidTypeDescriptor,
    /// A symbol description was missing a required field or a field failed
    /// to parse.
    InvalidSymbolShape,
}

/// An error that aborts a library load; no handle is produced.
#[derive(Debug, PartialEq, Eq)]
pub enum LoadError {
    /// The path did not resolve to a loadable module.
    LibraryLoad { path: String },
    /// A requested symbol name yielded no usable entry-point address.
    SymbolNotFound { name: String },
}

/// A recoverable error from an invocation; surfaced before any native call
/// is performed.
#[derive(Debug, PartialEq, Eq)]
pub enum InvokeError {
    /// No symbol of this name was registered with the handle.
    UnknownSymbol { name: String },
    /// The number of supplied arguments differs from the declared
    /// parameter count.
    ArityMismatch { expected: usize, actual: usize },
    /// An argument's runtime tag does not fit the declared parameter type.
    ArgumentTypeMismatch { index: usize, expected: TypeTag, actual: ValueKind },
    /// The argument kind is never marshalable (an aggregate or a callable).
    UnsupportedArgumentType { index: usize },
    /// A text argument held an interior zero byte and cannot become a
    /// null-terminated native string.
    InvalidTextArgument { index: usize },
    /// The declared result type cannot be decoded (an aggregate result).
    UnsupportedResultType,
}

} // verus!
