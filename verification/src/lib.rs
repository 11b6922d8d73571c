//! A dynamic foreign-function-interface bridge.
//!
//! A declarative description of a native function's signature (its name, its
//! parameter types and its result type) is turned into a compiled call
//! interface; a symbol is resolved from a dynamically loaded library; and
//! each invocation marshals dynamically typed values into raw argument
//! slots, performs the native call, and decodes the raw return value back
//! into a dynamic value.
//!
//! The native call itself crosses into arbitrary machine code and is outside
//! what this crate can state or check: a fault inside the called function
//! (an illegal memory access, an abort) is fatal to the process, and a
//! declared signature that does not match the real one is undefined
//! behaviour.  Those obligations stay with the caller.  Everything on this
//! side of the call — parsing of type descriptions, the ABI layout model,
//! argument validation and marshaling, arity checking, load-time symbol
//! bookkeeping and result decoding — is specified and verified here.

pub mod errors;
pub mod value;
pub mod types;
pub mod abi;
pub mod symbol;
pub mod dylib;
