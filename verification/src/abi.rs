//! The ABI model: the platform call-description element that a type
//! descriptor lowers to, and the layout (size and alignment) that the
//! platform's struct-packing rule gives an aggregate.
//!
//! The model matches the 64-bit System V rule: a scalar's alignment is its
//! size, a struct's alignment is the greatest alignment among its fields,
//! each field sits at the next multiple of its alignment, and the struct's
//! size is the end of its last field rounded up to the struct's alignment.

use vstd::prelude::*;
use crate::types::FfiType;
use crate::symbol::SymbolShape;

verus! {

/// A platform call-description element.  `Float` and `Double` are the C
/// `float` and `double` elements; `Pointer` covers every pointer-sized
/// address, which is what both `String` and `Pointer` descriptors lower
/// to.
#[derive(Debug, PartialEq, Eq)]
pub enum AbiType {
    Void,
    SInt8,
    SInt16,
    SInt32,
    SInt64,
    UInt8,
    UInt16,
    UInt32,
    UInt64,
    Float,
    Double,
    Pointer,
    Struct(Vec<AbiType>),
}

/// The lowering relation between a descriptor and its ABI element.
pub open spec fn lowers_to(t: FfiType, a: AbiType) -> bool
    decreases t,
{
    match t {
        FfiType::Void => a == AbiType::Void,
        FfiType::Int8 => a == AbiType::SInt8,
        FfiType::Int16 => a == AbiType::SInt16,
        FfiType::Int32 => a == AbiType::SInt32,
        FfiType::Int64 => a == AbiType::SInt64,
        FfiType::UInt8 => a == AbiType::UInt8,
        FfiType::UInt16 => a == AbiType::UInt16,
        FfiType::UInt32 => a == AbiType::UInt32,
        FfiType::UInt64 => a == AbiType::UInt64,
        FfiType::Float32 => a == AbiType::Float,
        FfiType::Float64 => a == AbiType::Double,
        FfiType::String => a == AbiType::Pointer,
        FfiType::Pointer => a == AbiType::Pointer,
        FfiType::Struct(fields) => {
            &&& a is Struct
            &&& fields_lower_to(fields@, a->Struct_0@)
        },
    }
}

/// The element-by-element form of the lowering relation.
pub open spec fn fields_lower_to(ts: Seq<FfiType>, es: Seq<AbiType>) -> bool
    decreases ts,
{
    if ts.len() == 0 {
        es.len() == 0
    } else {
        &&& es.len() == ts.len()
        &&& lowers_to(ts[0], es[0])
        &&& fields_lower_to(ts.drop_first(), es.drop_first())
    }
}

/// Builds the element-by-element lowering relation from its elements.
pub proof fn lemma_fields_lower_to_intro(ts: Seq<FfiType>, es: Seq<AbiType>)
    requires
        es.len() == ts.len(),
        forall|j: int| #![trigger ts[j]] 0 <= j < ts.len() ==> lowers_to(ts[j], es[j]),
    ensures
        fields_lower_to(ts, es),
    decreases ts.len(),
{
    if ts.len() == 0 {
    } else {
        assert(lowers_to(ts[0], es[0]));
        assert forall|j: int| #![trigger ts.drop_first()[j]]
            0 <= j < ts.drop_first().len() implies lowers_to(
            ts.drop_first()[j],
            es.drop_first()[j],
        ) by {
            assert(ts.drop_first()[j] == ts[j + 1]);
            assert(es.drop_first()[j] == es[j + 1]);
        }
        lemma_fields_lower_to_intro(ts.drop_first(), es.drop_first());
    }
}

proof fn lemma_struct_lowers(ts: Vec<FfiType>, es: Vec<AbiType>, a: AbiType)
    requires
        fields_lower_to(ts@, es@),
        a is Struct,
        a->Struct_0@ == es@,
    ensures
        lowers_to(FfiType::Struct(ts), a),
{
}

impl FfiType {
    /// Lowers this descriptor into its platform call-description element;
    /// a struct lowers every field recursively.  Deterministic and total.
    pub fn into_type(&self) -> (r: AbiType)
        ensures
            lowers_to(*self, r),
        decreases *self,
    {
        match self {
            FfiType::Void => AbiType::Void,
            FfiType::Int8 => AbiType::SInt8,
            FfiType::Int16 => AbiType::SInt16,
            FfiType::Int32 => AbiType::SInt32,
            FfiType::Int64 => AbiType::SInt64,
            FfiType::UInt8 => AbiType::UInt8,
            FfiType::UInt16 => AbiType::UInt16,
            FfiType::UInt32 => AbiType::UInt32,
            FfiType::UInt64 => AbiType::UInt64,
            FfiType::Float32 => AbiType::Float,
            FfiType::Float64 => AbiType::Double,
            FfiType::String => AbiType::Pointer,
            FfiType::Pointer => AbiType::Pointer,
            FfiType::Struct(fields) => {
                let mut lowered: Vec<AbiType> = Vec::new();
                let n = fields.len();
                let mut i: usize = 0;
                while i < n
                    invariant
                        *self == FfiType::Struct(*fields),
                        n == fields@.len(),
                        0 <= i <= n,
                        lowered@.len() == i,
                        forall|j: int| #![trigger fields@[j]]
                            0 <= j < i ==> lowers_to(fields@[j], lowered@[j]),
                    decreases n - i,
                {
                    proof {
                        broadcast use vstd::std_specs::vec::axiom_vec_index_decreases;

                        assert(decreases_to!(*self => (*self)->Struct_0));
                        assert((*self)->Struct_0 == *fields);
                        assert(decreases_to!(*self => fields@[i as int]));
                    }
                    lowered.push(fields[i].into_type());
                    i += 1;
                }
                proof {
                    lemma_fields_lower_to_intro(fields@, lowered@);
                    lemma_struct_lowers(*fields, lowered, AbiType::Struct(lowered));
                }
                AbiType::Struct(lowered)
            },
        }
    }
}

/// A compiled call interface: the lowered parameter elements and result
/// element of one symbol, derived once at load time and reused for every
/// call.
#[derive(Debug, PartialEq, Eq)]
pub struct CallInterface {
    pub parameters: Vec<AbiType>,
    pub result: AbiType,
}

/// The relation between a shape and its compiled interface.
pub open spec fn interface_of(s: SymbolShape, c: CallInterface) -> bool {
    &&& c.parameters@.len() == s.parameters@.len()
    &&& fields_lower_to(s.parameters@, c.parameters@)
    &&& lowers_to(s.result, c.result)
}

impl SymbolShape {
    /// Compiles this shape's parameter and result descriptors into a call
    /// interface.  Pure and deterministic: computed once per symbol at
    /// load time and cached.
    pub fn into_cif(&self) -> (r: CallInterface)
        ensures
            interface_of(*self, r),
    {
        let mut lowered: Vec<AbiType> = Vec::new();
        let n = self.parameters.len();
        let mut i: usize = 0;
        while i < n
            invariant
                n == self.parameters@.len(),
                0 <= i <= n,
                lowered@.len() == i,
                forall|j: int| #![trigger self.parameters@[j]]
                    0 <= j < i ==> lowers_to(self.parameters@[j], lowered@[j]),
            decreases n - i,
        {
            lowered.push(self.parameters[i].into_type());
            i += 1;
        }
        proof {
            lemma_fields_lower_to_intro(self.parameters@, lowered@);
        }
        CallInterface { parameters: lowered, result: self.result.into_type() }
    }
}

/// The canonical-descriptor relation: the descriptor that an ABI element
/// reads back as.  `Pointer` is the canonical form of both `String` and
/// `Pointer`, which lower to the same element.
pub open spec fn canon_of(a: AbiType, t: FfiType) -> bool
    decreases a,
{
    match a {
        AbiType::Void => t == FfiType::Void,
        AbiType::SInt8 => t == FfiType::Int8,
        AbiType::SInt16 => t == FfiType::Int16,
        AbiType::SInt32 => t == FfiType::Int32,
        AbiType::SInt64 => t == FfiType::Int64,
        AbiType::UInt8 => t == FfiType::UInt8,
        AbiType::UInt16 => t == FfiType::UInt16,
        AbiType::UInt32 => t == FfiType::UInt32,
        AbiType::UInt64 => t == FfiType::UInt64,
        AbiType::Float => t == FfiType::Float32,
        AbiType::Double => t == FfiType::Float64,
        AbiType::Pointer => t == FfiType::Pointer,
        AbiType::Struct(es) => t is Struct && elements_canon(es@, t->Struct_0@),
    }
}

/// The element-by-element form of the canonical-descriptor relation.
pub open spec fn elements_canon(es: Seq<AbiType>, ts: Seq<FfiType>) -> bool
    decreases es,
{
    if es.len() == 0 {
        ts.len() == 0
    } else {
        &&& ts.len() == es.len()
        &&& canon_of(es[0], ts[0])
        &&& elements_canon(es.drop_first(), ts.drop_first())
    }
}

/// Builds the element-by-element canonical relation from its elements.
pub proof fn lemma_elements_canon_intro(es: Seq<AbiType>, ts: Seq<FfiType>)
    requires
        ts.len() == es.len(),
        forall|j: int| #![trigger es[j]] 0 <= j < es.len() ==> canon_of(es[j], ts[j]),
    ensures
        elements_canon(es, ts),
    decreases es.len(),
{
    if es.len() == 0 {
    } else {
        assert(canon_of(es[0], ts[0]));
        assert forall|j: int| #![trigger es.drop_first()[j]]
            0 <= j < es.drop_first().len() implies canon_of(
            es.drop_first()[j],
            ts.drop_first()[j],
        ) by {
            assert(es.drop_first()[j] == es[j + 1]);
            assert(ts.drop_first()[j] == ts[j + 1]);
        }
        lemma_elements_canon_intro(es.drop_first(), ts.drop_first());
    }
}

proof fn lemma_struct_canon(es: Vec<AbiType>, ts: Vec<FfiType>, t: FfiType)
    requires
        elements_canon(es@, ts@),
        t is Struct,
        t->Struct_0@ == ts@,
    ensures
        canon_of(AbiType::Struct(es), t),
{
}

impl AbiType {
    /// Reads this element back as its canonical type descriptor.
    pub fn from_abi(&self) -> (r: FfiType)
        ensures
            canon_of(*self, r),
        decreases *self,
    {
        match self {
            AbiType::Void => FfiType::Void,
            AbiType::SInt8 => FfiType::Int8,
            AbiType::SInt16 => FfiType::Int16,
            AbiType::SInt32 => FfiType::Int32,
            AbiType::SInt64 => FfiType::Int64,
            AbiType::UInt8 => FfiType::UInt8,
            AbiType::UInt16 => FfiType::UInt16,
            AbiType::UInt32 => FfiType::UInt32,
            AbiType::UInt64 => FfiType::UInt64,
            AbiType::Float => FfiType::Float32,
            AbiType::Double => FfiType::Float64,
            AbiType::Pointer => FfiType::Pointer,
            AbiType::Struct(es) => {
                let mut ts: Vec<FfiType> = Vec::new();
                let n = es.len();
                let mut i: usize = 0;
                while i < n
                    invariant
                        *self == AbiType::Struct(*es),
                        n == es@.len(),
                        0 <= i <= n,
                        ts@.len() == i,
                        forall|j: int| #![trigger es@[j]]
                            0 <= j < i ==> canon_of(es@[j], ts@[j]),
                    decreases n - i,
                {
                    proof {
                        broadcast use vstd::std_specs::vec::axiom_vec_index_decreases;

                        assert(decreases_to!(*self => (*self)->Struct_0));
                        assert((*self)->Struct_0 == *es);
                        assert(decreases_to!(*self => es@[i as int]));
                    }
                    ts.push(es[i].from_abi());
                    i += 1;
                }
                proof {
                    lemma_elements_canon_intro(es@, ts@);
                    lemma_struct_canon(*es, ts, FfiType::Struct(ts));
                }
                FfiType::Struct(ts)
            },
        }
    }
}

/// For every recognized type-name token, lowering is idempotent under the
/// round trip through the ABI element and back: the canonical descriptor
/// lowers to the same element, and every token's descriptor except the
/// text descriptor is its own canonical form (text reads back as the
/// opaque pointer it lowered to).
pub proof fn lemma_token_round_trip(
    s: Seq<char>,
    t: FfiType,
    a: AbiType,
    t2: FfiType,
    a2: AbiType,
)
    requires
        crate::types::token_descriptor(s) == Some(t),
        lowers_to(t, a),
        canon_of(a, t2),
        lowers_to(t2, a2),
    ensures
        a2 == a,
        t != FfiType::String ==> t2 == t,
        t == FfiType::String ==> t2 == FfiType::Pointer,
{
}


/// The next multiple of `a` at or after `x` (for `a >= 1`).
pub open spec fn round_up(x: int, a: int) -> int {
    x + ((a - x % a) % a)
}

/// The alignment of an element: a scalar's size, a struct's greatest
/// field alignment.
pub open spec fn abi_align(a: AbiType) -> int
    decreases a,
{
    match a {
        AbiType::Void => 1,
        AbiType::SInt8 => 1,
        AbiType::SInt16 => 2,
        AbiType::SInt32 => 4,
        AbiType::SInt64 => 8,
        AbiType::UInt8 => 1,
        AbiType::UInt16 => 2,
        AbiType::UInt32 => 4,
        AbiType::UInt64 => 8,
        AbiType::Float => 4,
        AbiType::Double => 8,
        AbiType::Pointer => 8,
        AbiType::Struct(es) => max_align(es@),
    }
}

/// The greatest alignment among elements, at least 1.
pub open spec fn max_align(es: Seq<AbiType>) -> int
    decreases es,
{
    if es.len() == 0 {
        1
    } else {
        let h = abi_align(es[0]);
        let t = max_align(es.drop_first());
        if h >= t {
            h
        } else {
            t
        }
    }
}

/// The end offset after laying the elements out from `off`, each at the
/// next multiple of its own alignment.
pub open spec fn fields_end(es: Seq<AbiType>, off: int) -> int
    decreases es,
{
    if es.len() == 0 {
        off
    } else {
        fields_end(es.drop_first(), round_up(off, abi_align(es[0])) + abi_size(es[0]))
    }
}

/// The size of an element: a scalar's width; for a struct, its fields
/// laid out in order and the end rounded up to the struct's alignment.
pub open spec fn abi_size(a: AbiType) -> int
    decreases a,
{
    match a {
        AbiType::Void => 1,
        AbiType::SInt8 => 1,
        AbiType::SInt16 => 2,
        AbiType::SInt32 => 4,
        AbiType::SInt64 => 8,
        AbiType::UInt8 => 1,
        AbiType::UInt16 => 2,
        AbiType::UInt32 => 4,
        AbiType::UInt64 => 8,
        AbiType::Float => 4,
        AbiType::Double => 8,
        AbiType::Pointer => 8,
        AbiType::Struct(es) => round_up(fields_end(es@, 0), max_align(es@)),
    }
}

fn max_align_from(es: &Vec<AbiType>, from: usize) -> (r: u64)
    requires
        from <= es@.len(),
    ensures
        r == max_align(es@.subrange(from as int, es@.len() as int)),
        1 <= r <= 8,
    decreases *es, es@.len() - from,
{
    let n = es.len();
    if from == n {
        proof {
            assert(es@.subrange(from as int, n as int) =~= Seq::<AbiType>::empty());
        }
        1
    } else {
        proof {
            assert(es@.subrange(from as int, n as int)[0] == es@[from as int]);
            assert(es@.subrange(from as int, n as int).drop_first() =~= es@.subrange(
                from as int + 1,
                n as int,
            ));
        }
        let h = abi_align_of(&es[from]);
        let t = max_align_from(es, from + 1);
        if h >= t {
            h
        } else {
            t
        }
    }
}

/// Computes an element's alignment; always between 1 and 8.
pub fn abi_align_of(a: &AbiType) -> (r: u64)
    ensures
        r == abi_align(*a),
        1 <= r <= 8,
    decreases *a, 0int,
{
    match a {
        AbiType::Void => 1,
        AbiType::SInt8 => 1,
        AbiType::SInt16 => 2,
        AbiType::SInt32 => 4,
        AbiType::SInt64 => 8,
        AbiType::UInt8 => 1,
        AbiType::UInt16 => 2,
        AbiType::UInt32 => 4,
        AbiType::UInt64 => 8,
        AbiType::Float => 4,
        AbiType::Double => 8,
        AbiType::Pointer => 8,
        AbiType::Struct(es) => {
            proof {
                assert(es@.subrange(0, es@.len() as int) =~= es@);
            }
            max_align_from(es, 0)
        },
    }
}

fn fields_end_from(es: &Vec<AbiType>, from: usize, off: u64) -> (r: Option<u64>)
    requires
        from <= es@.len(),
    ensures
        r matches Some(e) ==> e == fields_end(es@.subrange(from as int, es@.len() as int), off as int),
        r is None ==> fields_end(es@.subrange(from as int, es@.len() as int), off as int)
            > u64::MAX,
    decreases *es, es@.len() - from,
{
    let n = es.len();
    if from == n {
        proof {
            assert(es@.subrange(from as int, n as int) =~= Seq::<AbiType>::empty());
        }
        Some(off)
    } else {
        proof {
            assert(es@.subrange(from as int, n as int)[0] == es@[from as int]);
            assert(es@.subrange(from as int, n as int).drop_first() =~= es@.subrange(
                from as int + 1,
                n as int,
            ));
        }
        let ghost sub = es@.subrange(from as int, n as int);
        let ghost rest = es@.subrange(from as int + 1, n as int);
        let al = abi_align_of(&es[from]);
        let ghost start_s = round_up(off as int, al as int);
        let ghost end_s = start_s + abi_size(es@[from as int]);
        proof {
            lemma_size_nonneg(es@[from as int]);
            lemma_round_up_props(off as int, al as int);
            lemma_fields_end_mono(rest, end_s);
            assert(fields_end(sub, off as int) == fields_end(rest, end_s));
        }
        let pad = (al - off % al) % al;
        let start = match off.checked_add(pad) {
            Some(x) => x,
            None => {
                return None;
            },
        };
        let sz = match abi_size_of(&es[from]) {
            Some(x) => x,
            None => {
                return None;
            },
        };
        let next = match start.checked_add(sz) {
            Some(x) => x,
            None => {
                return None;
            },
        };
        fields_end_from(es, from + 1, next)
    }
}

/// Computes an element's total size per the platform layout rule;
/// `None` exactly when the size does not fit in 64 bits.
pub fn abi_size_of(a: &AbiType) -> (r: Option<u64>)
    ensures
        r matches Some(s) ==> s == abi_size(*a),
        r is None ==> abi_size(*a) > u64::MAX,
    decreases *a, 0int,
{
    match a {
        AbiType::Void => Some(1),
        AbiType::SInt8 => Some(1),
        AbiType::SInt16 => Some(2),
        AbiType::SInt32 => Some(4),
        AbiType::SInt64 => Some(8),
        AbiType::UInt8 => Some(1),
        AbiType::UInt16 => Some(2),
        AbiType::UInt32 => Some(4),
        AbiType::UInt64 => Some(8),
        AbiType::Float => Some(4),
        AbiType::Double => Some(8),
        AbiType::Pointer => Some(8),
        AbiType::Struct(es) => {
            proof {
                assert(es@.subrange(0, es@.len() as int) =~= es@);
            }
            let ghost end_g = fields_end(es@, 0);
            let end = match fields_end_from(es, 0, 0) {
                Some(e) => e,
                None => {
                    proof {
                        lemma_max_align_pos(es@);
                        lemma_fields_end_mono(es@, 0);
                        lemma_round_up_props(end_g, max_align(es@));
                    }
                    return None;
                },
            };
            let al = abi_align_of(a);
            let pad = (al - end % al) % al;
            proof {
                lemma_max_align_pos(es@);
                lemma_fields_end_mono(es@, 0);
                lemma_round_up_props(end_g, max_align(es@));
            }
            end.checked_add(pad)
        },
    }
}


proof fn lemma_round_up_props(x: int, a: int)
    by (nonlinear_arith)
    requires
        a >= 1,
        x >= 0,
    ensures
        round_up(x, a) % a == 0,
        round_up(x, a) >= x,
{
}

proof fn lemma_max_align_pos(es: Seq<AbiType>)
    ensures
        max_align(es) >= 1,
    decreases es,
{
    if es.len() == 0 {
    } else {
        lemma_max_align_pos(es.drop_first());
        lemma_align_pos(es[0]);
    }
}

proof fn lemma_align_pos(a: AbiType)
    ensures
        abi_align(a) >= 1,
    decreases a,
{
    if a is Struct {
        lemma_max_align_pos(a->Struct_0@);
    }
}

proof fn lemma_size_nonneg(a: AbiType)
    ensures
        abi_size(a) >= 0,
    decreases a,
{
    if a is Struct {
        let es = a->Struct_0@;
        lemma_fields_end_mono(es, 0);
        lemma_max_align_pos(es);
        lemma_round_up_props(fields_end(es, 0), max_align(es));
    }
}

proof fn lemma_fields_end_mono(es: Seq<AbiType>, off: int)
    requires
        off >= 0,
    ensures
        fields_end(es, off) >= off,
    decreases es,
{
    if es.len() == 0 {
    } else {
        lemma_align_pos(es[0]);
        lemma_size_nonneg(es[0]);
        lemma_round_up_props(off, abi_align(es[0]));
        lemma_fields_end_mono(es.drop_first(), round_up(off, abi_align(es[0])) + abi_size(es[0]));
    }
}

/// The platform layout law for aggregates: a struct element's total size
/// is a multiple of its alignment, and at least the end offset of its
/// fields laid out in order.
pub proof fn lemma_struct_size_aligned(a: AbiType)
    requires
        a is Struct,
    ensures
        abi_align(a) >= 1,
        abi_size(a) % abi_align(a) == 0,
        abi_size(a) >= fields_end(a->Struct_0@, 0),
{
    let es = a->Struct_0@;
    lemma_max_align_pos(es);
    lemma_fields_end_mono(es, 0);
    lemma_round_up_props(fields_end(es, 0), max_align(es));
}


} // verus!
