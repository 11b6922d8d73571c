//! The dynamic library handle: load-time symbol bookkeeping and the
//! checked half of the invocation pipeline.
//!
//! Opening the native library and resolving raw entry-point addresses are
//! operating-system work that the embedding layer performs; it hands the
//! outcome in as plain values.  Everything decided here — fail-fast
//! loading, lookup, arity checking, argument validation against the
//! declared parameter types, marshaling into argument slots, and decoding
//! of the raw return word — is verified.
//!
//! The native call itself is performed by the embedding layer with the
//! marshaled slots; a fault inside the called function is fatal to the
//! process and is not represented as an error here.

use vstd::prelude::*;
use crate::abi::{CallInterface, interface_of};
use crate::errors::{InvokeError, LoadError};
use crate::symbol::SymbolShape;
use crate::types::FfiType;
use crate::value::DynamicValue;

verus! {

/// One marshaled argument slot: the plain value whose address the
/// embedding layer hands to the native call, per the coercion table.
#[derive(Debug, PartialEq, Eq)]
pub enum ArgSlot {
    /// A native integer, passed by address; the compiled interface's
    /// element width tells the FFI layer how many low-order bytes to read.
    Integer(i64),
    /// The bit pattern of a native double, passed by address.
    Number(u64),
    /// A null-terminated native text buffer, passed by address.
    Text(Vec<u8>),
    /// A native boolean, passed by address.
    Boolean(bool),
    /// A null pointer.
    Null,
    /// An opaque handle's address, passed directly.
    Address(usize),
}

/// A symbol resolved at load time: its non-null entry-point address, its
/// shape, and its compiled call interface (cached once, reused on every
/// call).  The address is only valid while the owning library mapping
/// stays open.
#[derive(Debug, PartialEq, Eq)]
pub struct LibrarySymbol {
    pub addr: usize,
    pub shape: SymbolShape,
    pub interface: CallInterface,
}

/// A shape together with the address the embedding layer resolved for it;
/// `None` when resolution failed.
#[derive(Debug, PartialEq, Eq)]
pub struct ResolvedShape {
    pub shape: SymbolShape,
    pub addr: Option<usize>,
}

/// What the embedding layer's load attempt produced: nothing (the path
/// did not resolve to a loadable module), or one resolution outcome per
/// requested shape, in request order.
#[derive(Debug, PartialEq, Eq)]
pub enum LoadOutcome {
    OpenFailed,
    Opened(Vec<ResolvedShape>),
}

/// Whether resolution yielded a usable address: present and non-null (a
/// null address is a load-time fault, never a call-time one).
pub open spec fn resolved(r: ResolvedShape) -> bool {
    r.addr matches Some(a) && a != 0
}

/// Whether a stored symbol faithfully carries one resolution outcome.
pub open spec fn sym_from(s: LibrarySymbol, r: ResolvedShape) -> bool {
    &&& r.addr == Some(s.addr)
    &&& s.addr != 0
    &&& s.shape == r.shape
    &&& interface_of(s.shape, s.interface)
}

/// Every stored symbol carries the resolved address and the requested
/// shape of one of the handed-in resolutions; in particular, only
/// requested identifiers are ever registered.
pub open spec fn loaded_from(lib: DynamicLibrary, rs: Seq<ResolvedShape>) -> bool {
    forall|j: int| #![trigger lib.symbols@[j]]
        0 <= j < lib.symbols@.len() ==> exists|i: int|
            0 <= i < rs.len() && (#[trigger] rs[i]).addr == Some(lib.symbols@[j].addr)
                && rs[i].shape == lib.symbols@[j].shape
}

/// Every requested identifier is registered in the handle.
pub open spec fn registers_all(lib: DynamicLibrary, rs: Seq<ResolvedShape>) -> bool {
    forall|i: int| #![trigger rs[i]]
        0 <= i < rs.len() ==> exists|j: int|
            0 <= j < lib.symbols@.len() && (#[trigger] lib.symbols@[j]).shape.ident@
                == rs[i].shape.ident@
}

/// An open dynamic library: the resolved symbols, keyed by their unique
/// identifiers.  Populated once at load time and read-only afterwards.
#[derive(Debug, PartialEq, Eq)]
pub struct DynamicLibrary {
    pub symbols: Vec<LibrarySymbol>,
}

impl DynamicLibrary {
    /// Well-formedness: identifiers are unique, every address is non-null,
    /// and every cached interface is the compilation of its shape.
    pub open spec fn wf(self) -> bool {
        &&& forall|i: int, j: int| #![trigger self.symbols@[i], self.symbols@[j]]
            0 <= i < j < self.symbols@.len() ==> self.symbols@[i].shape.ident@
                != self.symbols@[j].shape.ident@
        &&& forall|i: int| #![trigger self.symbols@[i]]
            0 <= i < self.symbols@.len() ==> self.symbols@[i].addr != 0 && interface_of(
                self.symbols@[i].shape,
                self.symbols@[i].interface,
            )
    }

    /// Whether a symbol of this name is registered.
    pub open spec fn has_sym(self, name: Seq<char>) -> bool {
        exists|i: int|
            0 <= i < self.symbols@.len() && (#[trigger] self.symbols@[i]).shape.ident@ == name
    }

    /// Looks a resolved symbol up by name.
    pub fn symbol(&self, name: &String) -> (r: Option<&LibrarySymbol>)
        ensures
            self.has_sym(name@) ==> (r matches Some(s) && s.shape.ident@ == name@ && exists|i: int|
                0 <= i < self.symbols@.len() && *s == self.symbols@[i]),
            !self.has_sym(name@) ==> r is None,
    {
        let n = self.symbols.len();
        let mut i: usize = 0;
        while i < n
            invariant
                n == self.symbols@.len(),
                0 <= i <= n,
                forall|j: int| #![trigger self.symbols@[j]]
                    0 <= j < i ==> self.symbols@[j].shape.ident@ != name@,
            decreases n - i,
        {
            if self.symbols[i].shape.ident == *name {
                return Some(&self.symbols[i]);
            }
            i += 1;
        }
        None
    }
}

/// Replaces the symbol of the same identifier, or appends; later
/// registrations of an identifier win, and uniqueness is preserved.
fn insert_symbol(symbols: &mut Vec<LibrarySymbol>, sym: LibrarySymbol)
    requires
        forall|i: int, j: int| #![trigger old(symbols)@[i], old(symbols)@[j]]
            0 <= i < j < old(symbols)@.len() ==> old(symbols)@[i].shape.ident@
                != old(symbols)@[j].shape.ident@,
    ensures
        forall|i: int, j: int| #![trigger final(symbols)@[i], final(symbols)@[j]]
            0 <= i < j < final(symbols)@.len() ==> final(symbols)@[i].shape.ident@
                != final(symbols)@[j].shape.ident@,
        exists|i: int|
            0 <= i < final(symbols)@.len() && (#[trigger] final(symbols)@[i]) == sym,
        forall|i: int| #![trigger final(symbols)@[i]]
            0 <= i < final(symbols)@.len() ==> final(symbols)@[i] == sym || (exists|j: int|
                0 <= j < old(symbols)@.len() && (#[trigger] old(
                    symbols,
                )@[j]) == final(symbols)@[i]),
        forall|j: int| #![trigger old(symbols)@[j]]
            0 <= j < old(symbols)@.len() && old(symbols)@[j].shape.ident@ != sym.shape.ident@
                ==> exists|i: int|
                0 <= i < final(symbols)@.len() && (#[trigger] final(symbols)@[i]) == old(
                    symbols,
                )@[j],
{
    let n = symbols.len();
    let mut i: usize = 0;
    while i < n
        invariant
            n == symbols@.len(),
            *symbols == *old(symbols),
            forall|p: int, q: int| #![trigger old(symbols)@[p], old(symbols)@[q]]
                0 <= p < q < old(symbols)@.len() ==> old(symbols)@[p].shape.ident@
                    != old(symbols)@[q].shape.ident@,
            0 <= i <= n,
            forall|j: int| #![trigger symbols@[j]]
                0 <= j < i ==> symbols@[j].shape.ident@ != sym.shape.ident@,
        decreases n - i,
    {
        if symbols[i].shape.ident == sym.shape.ident {
            let ghost before = symbols@;
            let ghost ii = i as int;
            symbols.set(i, sym);
            proof {
                assert(symbols@ =~= before.update(ii, sym));
                assert(symbols@[ii] == sym);
                assert forall|p: int, q: int| #![trigger symbols@[p], symbols@[q]]
                    0 <= p < q < symbols@.len() implies symbols@[p].shape.ident@
                    != symbols@[q].shape.ident@ by {
                    if p == ii {
                        assert(symbols@[q] == before[q]);
                        assert(sym.shape.ident@ == before[ii].shape.ident@);
                        assert(old(symbols)@[ii].shape.ident@ != old(symbols)@[q].shape.ident@);
                    } else if q == ii {
                        assert(symbols@[p] == before[p]);
                        assert(sym.shape.ident@ == before[ii].shape.ident@);
                        assert(old(symbols)@[p].shape.ident@ != old(symbols)@[ii].shape.ident@);
                    } else {
                        assert(symbols@[p] == before[p]);
                        assert(symbols@[q] == before[q]);
                    }
                }
                assert forall|j: int| #![trigger before[j]]
                    0 <= j < before.len() && before[j].shape.ident@ != sym.shape.ident@
                    implies exists|k: int|
                    0 <= k < symbols@.len() && (#[trigger] symbols@[k]) == before[j] by {
                    assert(j != ii);
                    assert(symbols@[j] == before[j]);
                }
                assert forall|k: int| #![trigger symbols@[k]]
                    0 <= k < symbols@.len() implies symbols@[k] == sym || (exists|j: int|
                    0 <= j < before.len() && (#[trigger] before[j]) == symbols@[k]) by {
                    if k != ii {
                        assert(symbols@[k] == before[k]);
                    }
                }
            }
            return ;
        }
        i += 1;
    }
    let ghost before = symbols@;
    symbols.push(sym);
    proof {
        assert(symbols@ =~= before.push(sym));
        assert(symbols@[before.len() as int] == sym);
        assert forall|p: int, q: int| #![trigger symbols@[p], symbols@[q]]
            0 <= p < q < symbols@.len() implies symbols@[p].shape.ident@
            != symbols@[q].shape.ident@ by {
            if q < before.len() {
                assert(symbols@[p] == before[p]);
                assert(symbols@[q] == before[q]);
            } else {
                assert(symbols@[p] == before[p]);
                assert(symbols@[q] == sym);
            }
        }
        assert forall|j: int| #![trigger before[j]]
            0 <= j < before.len() implies exists|k: int|
            0 <= k < symbols@.len() && (#[trigger] symbols@[k]) == before[j] by {
            assert(symbols@[j] == before[j]);
        }
        assert forall|k: int| #![trigger symbols@[k]]
            0 <= k < symbols@.len() implies symbols@[k] == sym || (exists|j: int|
            0 <= j < before.len() && (#[trigger] before[j]) == symbols@[k]) by {
            if k < before.len() {
                assert(symbols@[k] == before[k]);
            }
        }
    }
}

impl DynamicLibrary {
    /// Builds a handle from a load attempt's outcome: fail-fast and
    /// all-or-nothing.
    ///
    /// A failed open is `LibraryLoad`.  The first shape whose resolution
    /// yielded no usable address aborts the whole load with
    /// `SymbolNotFound` carrying that shape's identifier; no partial
    /// handle is ever produced.  On success every requested identifier is
    /// registered, each symbol carries the address and shape of one
    /// requested resolution together with its compiled call interface,
    /// and a later request for an identifier replaces an earlier one.
    #[verifier::rlimit(100)]
    #[verifier::spinoff_prover]
    pub fn new(path: &String, outcome: LoadOutcome) -> (r: Result<DynamicLibrary, LoadError>)
        ensures
            outcome is OpenFailed ==> r == Err::<DynamicLibrary, LoadError>(
                LoadError::LibraryLoad { path: *path },
            ),
            outcome is Opened && (forall|i: int| #![trigger (outcome->Opened_0)@[i]]
                0 <= i < (outcome->Opened_0)@.len() ==> resolved((outcome->Opened_0)@[i])) ==> r
                is Ok,
            r matches Ok(lib) ==> (outcome is Opened && lib.wf() && registers_all(
                lib,
                (outcome->Opened_0)@,
            ) && loaded_from(lib, (outcome->Opened_0)@)),
            outcome is Opened ==> ((exists|i: int|
                0 <= i < (outcome->Opened_0)@.len() && !resolved(
                    #[trigger] (outcome->Opened_0)@[i],
                )) ==> (r matches Err(e) && e matches LoadError::SymbolNotFound { name } && exists|
                i: int|
                0 <= i < (outcome->Opened_0)@.len() && !resolved(
                    #[trigger] (outcome->Opened_0)@[i],
                ) && name@ == (outcome->Opened_0)@[i].shape.ident@ && (forall|k: int|
                    #![trigger (outcome->Opened_0)@[k]]
                    0 <= k < i ==> resolved((outcome->Opened_0)@[k])))),
    {
        let mut rest: Vec<ResolvedShape> = match outcome {
            LoadOutcome::OpenFailed => {
                return Err(LoadError::LibraryLoad { path: path.clone() });
            },
            LoadOutcome::Opened(rs) => rs,
        };
        let ghost rs0: Seq<ResolvedShape> = rest@;
        let n = rest.len();
        let mut symbols: Vec<LibrarySymbol> = Vec::new();
        let mut idx: usize = 0;
        while idx < n
            invariant
                outcome is Opened,
                outcome->Opened_0@ == rs0,
                n == rs0.len(),
                0 <= idx <= n,
                rest@ =~= rs0.subrange(idx as int, n as int),
                forall|i: int| #![trigger rs0[i]] 0 <= i < idx ==> resolved(rs0[i]),
                forall|i: int, j: int| #![trigger symbols@[i], symbols@[j]]
                    0 <= i < j < symbols@.len() ==> symbols@[i].shape.ident@
                        != symbols@[j].shape.ident@,
                forall|i: int| #![trigger rs0[i]]
                    0 <= i < idx ==> exists|j: int|
                        0 <= j < symbols@.len() && (#[trigger] symbols@[j]).shape.ident@
                            == rs0[i].shape.ident@,
                forall|j: int| #![trigger symbols@[j]]
                    0 <= j < symbols@.len() ==> exists|i: int|
                        0 <= i < idx && sym_from(symbols@[j], #[trigger] rs0[i]),
            decreases n - idx,
        {
            let item = rest.remove(0);
            proof {
                assert(item == rs0[idx as int]);
            }
            let addr: usize = match item.addr {
                None => {
                    proof {
                        assert(!resolved(rs0[idx as int]));
                        assert(!resolved((outcome->Opened_0)@[idx as int]));
                    }
                    return Err(LoadError::SymbolNotFound { name: item.shape.ident });
                },
                Some(a) => {
                    if a == 0 {
                        proof {
                            assert(!resolved(rs0[idx as int]));
                            assert(!resolved((outcome->Opened_0)@[idx as int]));
                        }
                        return Err(LoadError::SymbolNotFound { name: item.shape.ident });
                    }
                    a
                },
            };
            let interface = item.shape.into_cif();
            let sym = LibrarySymbol { addr, shape: item.shape, interface };
            proof {
                assert(sym_from(sym, rs0[idx as int]));
            }
            insert_symbol(&mut symbols, sym);
            idx += 1;
        }
        let ghost symsg = symbols@;
        let ghost rsv = (outcome->Opened_0)@;
        proof {
            assert(rsv == rs0);
            assert forall|j: int| #![trigger symsg[j]]
                0 <= j < symsg.len() implies symsg[j].addr != 0 && interface_of(
                symsg[j].shape,
                symsg[j].interface,
            ) && (exists|i: int| 0 <= i < rsv.len() && sym_from(symsg[j], #[trigger] rsv[i])) by {
                let i0 = choose|i: int| 0 <= i < idx && sym_from(symbols@[j], #[trigger] rs0[i]);
                assert(symsg[j] == symbols@[j]);
                assert(sym_from(symsg[j], rsv[i0]));
            }
            assert forall|i: int| #![trigger rsv[i]]
                0 <= i < rsv.len() implies exists|j: int|
                0 <= j < symsg.len() && (#[trigger] symsg[j]).shape.ident@
                    == rsv[i].shape.ident@ by {
                assert(rsv[i] == rs0[i]);
                let j0 = choose|j: int|
                    0 <= j < symbols@.len() && (#[trigger] symbols@[j]).shape.ident@
                        == rs0[i].shape.ident@;
                assert(symsg[j0].shape.ident@ == rsv[i].shape.ident@);
            }
        }
        let lib = DynamicLibrary { symbols };
        proof {
            assert(lib.symbols@ == symsg);
            assert(lib.wf()) by {
                assert forall|i: int| #![trigger lib.symbols@[i]]
                    0 <= i < lib.symbols@.len() implies lib.symbols@[i].addr != 0 && interface_of(
                    lib.symbols@[i].shape,
                    lib.symbols@[i].interface,
                ) by {
                    assert(lib.symbols@[i] == symsg[i]);
                }
                assert forall|i: int, j: int| #![trigger lib.symbols@[i], lib.symbols@[j]]
                    0 <= i < j < lib.symbols@.len() implies lib.symbols@[i].shape.ident@
                    != lib.symbols@[j].shape.ident@ by {
                    assert(lib.symbols@[i] == symsg[i]);
                    assert(lib.symbols@[j] == symsg[j]);
                    assert(symsg[i] == symbols@[i]);
                    assert(symsg[j] == symbols@[j]);
                }
            }
            assert(loaded_from(lib, rsv)) by {
                assert forall|j: int| #![trigger lib.symbols@[j]]
                    0 <= j < lib.symbols@.len() implies exists|i: int|
                    0 <= i < rsv.len() && (#[trigger] rsv[i]).addr == Some(lib.symbols@[j].addr)
                        && rsv[i].shape == lib.symbols@[j].shape by {
                    assert(lib.symbols@[j] == symsg[j]);
                    let i0 = choose|i: int|
                        0 <= i < rsv.len() && sym_from(symsg[j], #[trigger] rsv[i]);
                    assert(sym_from(symsg[j], rsv[i0]));
                    assert(rsv[i0].addr == Some(lib.symbols@[j].addr));
                    assert(rsv[i0].shape == lib.symbols@[j].shape);
                }
            }
            assert(registers_all(lib, rsv)) by {
                assert forall|i: int| #![trigger rsv[i]]
                    0 <= i < rsv.len() implies exists|j: int|
                    0 <= j < lib.symbols@.len() && (#[trigger] lib.symbols@[j]).shape.ident@
                        == rsv[i].shape.ident@ by {
                    let j0 = choose|j: int|
                        0 <= j < symsg.len() && (#[trigger] symsg[j]).shape.ident@
                            == rsv[i].shape.ident@;
                    assert(lib.symbols@[j0] == symsg[j0]);
                }
            }
        }
        Ok(lib)
    }
}

/// Validation policy for arguments: whether a dynamic value's runtime tag
/// fits a declared parameter type.  A boolean fits the 8-bit integer
/// types (the width of a C boolean); absence fits the pointer-carrying
/// types as a null pointer.  Aggregate and callable values never reach
/// this test: they are rejected as unsupported before tag validation.
pub open spec fn tag_matches(p: FfiType, v: DynamicValue) -> bool {
    match p {
        FfiType::Void => false,
        FfiType::Int8 => v is Integer || v is Boolean,
        FfiType::UInt8 => v is Integer || v is Boolean,
        FfiType::Int16 => v is Integer,
        FfiType::Int32 => v is Integer,
        FfiType::Int64 => v is Integer,
        FfiType::UInt16 => v is Integer,
        FfiType::UInt32 => v is Integer,
        FfiType::UInt64 => v is Integer,
        FfiType::Float32 => v is Number,
        FfiType::Float64 => v is Number,
        FfiType::String => v is Text || v is Nil,
        FfiType::Pointer => v is Handle || v is Nil,
        FfiType::Struct(_) => v is Aggregate,
    }
}

/// Whether a byte string holds an interior zero byte, which no
/// null-terminated native text buffer can carry.
pub open spec fn has_nul(bytes: Seq<u8>) -> bool {
    exists|k: int| 0 <= k < bytes.len() && bytes[k] == 0
}

/// The error that one argument position produces, if any.  Aggregate and
/// callable values are never marshalable, whatever is declared, and fail
/// first; then a tag that does not fit the declared type; then text with
/// an interior zero byte.
pub open spec fn arg_fault(index: int, p: FfiType, v: DynamicValue) -> Option<InvokeError> {
    if v is Aggregate || v is Callable {
        Some(InvokeError::UnsupportedArgumentType { index: index as usize })
    } else if !tag_matches(p, v) {
        Some(
            InvokeError::ArgumentTypeMismatch {
                index: index as usize,
                expected: p.tag_spec(),
                actual: v.kind_spec(),
            },
        )
    } else if v is Text && has_nul(v->Text_0@) {
        Some(InvokeError::InvalidTextArgument { index: index as usize })
    } else {
        None
    }
}

/// The coercion table: the slot that a faultless dynamic value marshals
/// to.  Text gains a terminating zero byte.
pub open spec fn slot_for(v: DynamicValue, slot: ArgSlot) -> bool {
    match v {
        DynamicValue::Nil => slot == ArgSlot::Null,
        DynamicValue::Boolean(b) => slot == ArgSlot::Boolean(b),
        DynamicValue::Integer(x) => slot == ArgSlot::Integer(x),
        DynamicValue::Number(bits) => slot == ArgSlot::Number(bits),
        DynamicValue::Text(bytes) => slot is Text && slot->Text_0@ == bytes@.push(0u8),
        DynamicValue::Handle(a) => slot == ArgSlot::Address(a),
        DynamicValue::Aggregate => false,
        DynamicValue::Callable => false,
    }
}

/// Tests the validation policy.
pub fn matches_tag(p: &FfiType, v: &DynamicValue) -> (r: bool)
    ensures
        r == tag_matches(*p, *v),
{
    match p {
        FfiType::Void => false,
        FfiType::Int8 | FfiType::UInt8 => matches!(
            v,
            DynamicValue::Integer(_) | DynamicValue::Boolean(_)
        ),
        FfiType::Int16 | FfiType::Int32 | FfiType::Int64 | FfiType::UInt16 | FfiType::UInt32
            | FfiType::UInt64 => matches!(v, DynamicValue::Integer(_)),
        FfiType::Float32 | FfiType::Float64 => matches!(v, DynamicValue::Number(_)),
        FfiType::String => matches!(v, DynamicValue::Text(_) | DynamicValue::Nil),
        FfiType::Pointer => matches!(v, DynamicValue::Handle(_) | DynamicValue::Nil),
        FfiType::Struct(_) => matches!(v, DynamicValue::Aggregate),
    }
}

/// Marshals one argument against its declared parameter type: rejects
/// what can never be marshaled, validates the tag, and produces the slot
/// of the coercion table.
pub fn marshal_arg(index: usize, p: &FfiType, v: &DynamicValue) -> (r: Result<ArgSlot, InvokeError>)
    ensures
        arg_fault(index as int, *p, *v) matches Some(e) ==> r == Err::<ArgSlot, InvokeError>(e),
        arg_fault(index as int, *p, *v) is None ==> (r matches Ok(slot) && slot_for(*v, slot)),
{
    match v {
        DynamicValue::Aggregate => {
            return Err(InvokeError::UnsupportedArgumentType { index });
        },
        DynamicValue::Callable => {
            return Err(InvokeError::UnsupportedArgumentType { index });
        },
        _ => {},
    }
    if !matches_tag(p, v) {
        return Err(
            InvokeError::ArgumentTypeMismatch { index, expected: p.tag(), actual: v.kind() },
        );
    }
    match v {
        DynamicValue::Nil => Ok(ArgSlot::Null),
        DynamicValue::Boolean(b) => Ok(ArgSlot::Boolean(*b)),
        DynamicValue::Integer(x) => Ok(ArgSlot::Integer(*x)),
        DynamicValue::Number(bits) => Ok(ArgSlot::Number(*bits)),
        DynamicValue::Handle(a) => Ok(ArgSlot::Address(*a)),
        DynamicValue::Aggregate => Err(InvokeError::UnsupportedArgumentType { index }),
        DynamicValue::Callable => Err(InvokeError::UnsupportedArgumentType { index }),
        DynamicValue::Text(bytes) => {
            let mut buf: Vec<u8> = Vec::new();
            let n = bytes.len();
            let mut k: usize = 0;
            while k < n
                invariant
                    *v == DynamicValue::Text(*bytes),
                    tag_matches(*p, *v),
                    n == bytes@.len(),
                    0 <= k <= n,
                    buf@ =~= bytes@.take(k as int),
                    forall|j: int| 0 <= j < k ==> bytes@[j] != 0,
                decreases n - k,
            {
                let b = bytes[k];
                if b == 0 {
                    proof {
                        assert(bytes@[k as int] == 0);
                        assert(has_nul(bytes@));
                    }
                    return Err(InvokeError::InvalidTextArgument { index });
                }
                buf.push(b);
                k += 1;
            }
            buf.push(0u8);
            proof {
                assert(!has_nul(bytes@));
                assert(buf@ =~= bytes@.push(0u8));
            }
            Ok(ArgSlot::Text(buf))
        },
    }
}

impl DynamicLibrary {
    /// The registered symbol of a name; meaningful only when `has_sym`
    /// holds and identifiers are unique.
    pub open spec fn sym_at(self, name: Seq<char>) -> LibrarySymbol {
        self.symbols@[choose|i: int|
            0 <= i < self.symbols@.len() && (#[trigger] self.symbols@[i]).shape.ident@ == name]
    }

    /// The checked half of an invocation: looks the symbol up, checks
    /// arity against the declared parameter count, validates every
    /// argument against its declared parameter type, marshals the
    /// argument slots, and rejects a declared aggregate result.  No
    /// native call happens here, and none is ever owed after an error.
    ///
    /// Errors, in the order checked: `UnknownSymbol`, `ArityMismatch`,
    /// then the first faulty argument's error, then
    /// `UnsupportedResultType`.
    pub fn prepare_invoke(&self, name: &String, args: &Vec<DynamicValue>) -> (r: Result<
        Vec<ArgSlot>,
        InvokeError,
    >)
        requires
            self.wf(),
        ensures
            !self.has_sym(name@) ==> (r matches Err(e) && e matches InvokeError::UnknownSymbol {
                name: n } && n@ == name@),
            self.has_sym(name@) && args@.len() != self.sym_at(name@).shape.parameters@.len() ==> (r
                matches Err(e) && e matches InvokeError::ArityMismatch { expected, actual }
                && expected == self.sym_at(name@).shape.parameters@.len() && actual
                == args@.len()),
            self.has_sym(name@) && args@.len() == self.sym_at(name@).shape.parameters@.len() && (
            exists|i: int|
                0 <= i < args@.len() && (#[trigger] arg_fault(
                    i,
                    self.sym_at(name@).shape.parameters@[i],
                    args@[i],
                )) is Some) ==> (r matches Err(e) && exists|i: int|
                0 <= i < args@.len() && #[trigger] arg_fault(
                    i,
                    self.sym_at(name@).shape.parameters@[i],
                    args@[i],
                ) == Some(e) && (forall|k: int|
                    0 <= k < i ==> (#[trigger] arg_fault(
                        k,
                        self.sym_at(name@).shape.parameters@[k],
                        args@[k],
                    )) is None)),
            self.has_sym(name@) && args@.len() == self.sym_at(name@).shape.parameters@.len() && (
            forall|i: int|
                0 <= i < args@.len() ==> (#[trigger] arg_fault(
                    i,
                    self.sym_at(name@).shape.parameters@[i],
                    args@[i],
                )) is None) && self.sym_at(name@).shape.result is Struct ==> r == Err::<
                Vec<ArgSlot>,
                InvokeError,
            >(InvokeError::UnsupportedResultType),
            self.has_sym(name@) && args@.len() == self.sym_at(name@).shape.parameters@.len() && (
            forall|i: int|
                0 <= i < args@.len() ==> (#[trigger] arg_fault(
                    i,
                    self.sym_at(name@).shape.parameters@[i],
                    args@[i],
                )) is None) && !(self.sym_at(name@).shape.result is Struct) ==> (r matches Ok(
                slots,
            ) && slots@.len() == args@.len() && (forall|i: int|
                0 <= i < args@.len() ==> slot_for(#[trigger] args@[i], slots@[i]))),
    {
        let sym: &LibrarySymbol = match self.symbol(name) {
            Some(s) => s,
            None => {
                return Err(InvokeError::UnknownSymbol { name: name.clone() });
            },
        };
        proof {
            let i0 = choose|i: int|
                0 <= i < self.symbols@.len() && (#[trigger] self.symbols@[i]).shape.ident@
                    == name@;
            let i1 = choose|i: int|
                0 <= i < self.symbols@.len() && *sym == (#[trigger] self.symbols@[i]);
            assert(*sym == self.symbols@[i1]);
            if i0 != i1 {
                assert(self.symbols@[i0].shape.ident@ == self.symbols@[i1].shape.ident@);
            }
            assert(*sym == self.sym_at(name@));
        }
        let params: &Vec<FfiType> = &sym.shape.parameters;
        if args.len() != params.len() {
            return Err(InvokeError::ArityMismatch { expected: params.len(), actual: args.len() });
        }
        let n = args.len();
        let mut slots: Vec<ArgSlot> = Vec::new();
        let mut i: usize = 0;
        while i < n
            invariant
                self.wf(),
                self.has_sym(name@),
                *sym == self.sym_at(name@),
                params@ == self.sym_at(name@).shape.parameters@,
                n == args@.len(),
                n == params@.len(),
                0 <= i <= n,
                slots@.len() == i,
                forall|k: int|
                    0 <= k < i ==> (#[trigger] arg_fault(k, params@[k], args@[k])) is None,
                forall|k: int| 0 <= k < i ==> slot_for(#[trigger] args@[k], slots@[k]),
            decreases n - i,
        {
            match marshal_arg(i, &params[i], &args[i]) {
                Ok(slot) => {
                    slots.push(slot);
                },
                Err(e) => {
                    proof {
                        assert(arg_fault(i as int, params@[i as int], args@[i as int]) == Some(e));
                    }
                    return Err(e);
                },
            }
            i += 1;
        }
        if let FfiType::Struct(_) = &sym.shape.result {
            return Err(InvokeError::UnsupportedResultType);
        }
        Ok(slots)
    }
}

/// The decoding relation: the dynamic value that a raw return word (and,
/// for a text result, the bytes read from the returned buffer) decodes to
/// under a declared result type.
///
/// Integral results are 64-bit-exact: widths up to 32 bits are sign- or
/// zero-extended into the integer kind, and the 64-bit kinds carry the
/// raw word's two's-complement bits (an unsigned value at or above
/// `1 << 63` therefore appears reinterpreted as negative, exactly).  For
/// float results the word holds the bits of a 64-bit float, the 32-bit
/// kind having been widened by the embedding layer.
pub open spec fn decodes_to(ty: FfiType, raw: u64, text: Option<Vec<u8>>, v: DynamicValue) -> bool {
    match ty {
        FfiType::Void => v == DynamicValue::Nil,
        FfiType::Int8 => v == DynamicValue::Integer(((raw as u8) as i8) as i64),
        FfiType::Int16 => v == DynamicValue::Integer(((raw as u16) as i16) as i64),
        FfiType::Int32 => v == DynamicValue::Integer(((raw as u32) as i32) as i64),
        FfiType::Int64 => v == DynamicValue::Integer(raw as i64),
        FfiType::UInt8 => v == DynamicValue::Integer((raw as u8) as i64),
        FfiType::UInt16 => v == DynamicValue::Integer((raw as u16) as i64),
        FfiType::UInt32 => v == DynamicValue::Integer((raw as u32) as i64),
        FfiType::UInt64 => v == DynamicValue::Integer(raw as i64),
        FfiType::Float32 => v == DynamicValue::Number(raw),
        FfiType::Float64 => v == DynamicValue::Number(raw),
        FfiType::String => text matches Some(b) && v is Text && v->Text_0@ == b@,
        FfiType::Pointer => v == DynamicValue::Handle(raw as usize),
        FfiType::Struct(_) => false,
    }
}

/// Decodes a raw native return into a dynamic value, driven by the
/// declared result type alone.  For a declared text result the embedding
/// layer has read the returned null-terminated buffer (taking ownership
/// of it) and hands its bytes in; `raw` is ignored in that case.  A
/// declared aggregate result is unsupported.
pub fn decode_result(ty: &FfiType, raw: u64, text: Option<Vec<u8>>) -> (r: Result<
    DynamicValue,
    InvokeError,
>)
    requires
        ty is String ==> text is Some,
    ensures
        !(ty is Struct) ==> (r matches Ok(v) && decodes_to(*ty, raw, text, v)),
        ty is Struct ==> r == Err::<DynamicValue, InvokeError>(InvokeError::UnsupportedResultType),
{
    match ty {
        FfiType::Void => Ok(DynamicValue::Nil),
        FfiType::Int8 => {
            let b = #[verifier::truncate] (raw as u8);
            let sv = b as i8;
            Ok(DynamicValue::Integer(sv as i64))
        },
        FfiType::Int16 => {
            let b = #[verifier::truncate] (raw as u16);
            let sv = b as i16;
            Ok(DynamicValue::Integer(sv as i64))
        },
        FfiType::Int32 => {
            let b = #[verifier::truncate] (raw as u32);
            let sv = b as i32;
            Ok(DynamicValue::Integer(sv as i64))
        },
        FfiType::Int64 => Ok(DynamicValue::Integer(#[verifier::truncate] (raw as i64))),
        FfiType::UInt8 => Ok(DynamicValue::Integer((#[verifier::truncate] (raw as u8)) as i64)),
        FfiType::UInt16 => Ok(DynamicValue::Integer((#[verifier::truncate] (raw as u16)) as i64)),
        FfiType::UInt32 => Ok(DynamicValue::Integer((#[verifier::truncate] (raw as u32)) as i64)),
        FfiType::UInt64 => Ok(DynamicValue::Integer(#[verifier::truncate] (raw as i64))),
        FfiType::Float32 => Ok(DynamicValue::Number(raw)),
        FfiType::Float64 => Ok(DynamicValue::Number(raw)),
        FfiType::String => Ok(DynamicValue::Text(text.unwrap())),
        FfiType::Pointer => Ok(DynamicValue::Handle(#[verifier::truncate] (raw as usize))),
        FfiType::Struct(_) => Err(InvokeError::UnsupportedResultType),
    }
}

} // verus!
