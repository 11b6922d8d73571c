//! Type descriptors: the representation of one ABI-level type and its
//! parsing from a declarative description.
//!
//! A description is either a recognized name token (C-style and
//! size-suffixed spellings are both accepted, case-sensitively) or an
//! ordered list of field descriptions, interpreted as a struct.

use vstd::prelude::*;
use vstd::string::StringSliceAdditionalSpecFns;
use crate::errors::ConfigError;

verus! {

/// One ABI-level type: a scalar, a pointer, null-terminated text, void, or
/// an aggregate of nested types.
///
/// `String` and `Pointer` are both pointer-sized at the ABI level but carry
/// different marshaling semantics: owned text versus an opaque handle.  A
/// `Struct`'s field list is immutable once constructed and must be
/// non-empty, with no `Void` field.
#[derive(Debug, PartialEq, Eq)]
pub enum FfiType {
    Void,
    Int8,
    Int16,
    Int32,
    Int64,
    UInt8,
    UInt16,
    UInt32,
    UInt64,
    Float32,
    Float64,
    String,
    Pointer,
    Struct(Vec<FfiType>),
}

/// The outermost constructor of a type descriptor, without its payload;
/// light enough for error values to carry.
#[derive(Debug, Clone, Copy, PartialEq, Eq, Structural)]
pub enum TypeTag {
    Void,
    Int8,
    Int16,
    Int32,
    Int64,
    UInt8,
    UInt16,
    UInt32,
    UInt64,
    Float32,
    Float64,
    String,
    Pointer,
    Struct,
}

impl FfiType {
    /// The tag of this descriptor.
    pub open spec fn tag_spec(self) -> TypeTag {
        match self {
            FfiType::Void => TypeTag::Void,
            FfiType::Int8 => TypeTag::Int8,
            FfiType::Int16 => TypeTag::Int16,
            FfiType::Int32 => TypeTag::Int32,
            FfiType::Int64 => TypeTag::Int64,
            FfiType::UInt8 => TypeTag::UInt8,
            FfiType::UInt16 => TypeTag::UInt16,
            FfiType::UInt32 => TypeTag::UInt32,
            FfiType::UInt64 => TypeTag::UInt64,
            FfiType::Float32 => TypeTag::Float32,
            FfiType::Float64 => TypeTag::Float64,
            FfiType::String => TypeTag::String,
            FfiType::Pointer => TypeTag::Pointer,
            FfiType::Struct(_) => TypeTag::Struct,
        }
    }

    /// Returns the tag of this descriptor.
    pub fn tag(&self) -> (r: TypeTag)
        ensures
            r == self.tag_spec(),
    {
        match self {
            FfiType::Void => TypeTag::Void,
            FfiType::Int8 => TypeTag::Int8,
            FfiType::Int16 => TypeTag::Int16,
            FfiType::Int32 => TypeTag::Int32,
            FfiType::Int64 => TypeTag::Int64,
            FfiType::UInt8 => TypeTag::UInt8,
            FfiType::UInt16 => TypeTag::UInt16,
            FfiType::UInt32 => TypeTag::UInt32,
            FfiType::UInt64 => TypeTag::UInt64,
            FfiType::Float32 => TypeTag::Float32,
            FfiType::Float64 => TypeTag::Float64,
            FfiType::String => TypeTag::String,
            FfiType::Pointer => TypeTag::Pointer,
            FfiType::Struct(_) => TypeTag::Struct,
        }
    }
}

/// A declarative description of a type: a name token, or an ordered list
/// of field descriptions standing for a struct.
#[derive(Debug, PartialEq, Eq)]
pub enum TypeDescription {
    Name(String),
    Fields(Vec<TypeDescription>),
}

/// The descriptor that a recognized name token denotes, or `None` for an
/// unrecognized token.
pub open spec fn token_descriptor(s: Seq<char>) -> Option<FfiType> {
    if s == "void"@ {
        Some(FfiType::Void)
    } else if s == "int8"@ || s == "i8"@ || s == "signed char"@ {
        Some(FfiType::Int8)
    } else if s == "int16"@ || s == "i16"@ || s == "short"@ {
        Some(FfiType::Int16)
    } else if s == "int32"@ || s == "i32"@ || s == "int"@ {
        Some(FfiType::Int32)
    } else if s == "int64"@ || s == "i64"@ || s == "long"@ {
        Some(FfiType::Int64)
    } else if s == "uint8"@ || s == "u8"@ || s == "char"@ || s == "unsigned char"@ {
        Some(FfiType::UInt8)
    } else if s == "uint16"@ || s == "u16"@ || s == "unsigned short int"@ {
        Some(FfiType::UInt16)
    } else if s == "uint32"@ || s == "u32"@ || s == "unsigned int"@ {
        Some(FfiType::UInt32)
    } else if s == "uint64"@ || s == "u64"@ || s == "unsigned long"@ {
        Some(FfiType::UInt64)
    } else if s == "float32"@ || s == "f32"@ || s == "float"@ {
        Some(FfiType::Float32)
    } else if s == "float64"@ || s == "f64"@ || s == "double"@ {
        Some(FfiType::Float64)
    } else if s == "string"@ || s == "char*"@ {
        Some(FfiType::String)
    } else if s == "pointer"@ || s == "void*"@ {
        Some(FfiType::Pointer)
    } else {
        None
    }
}

/// Compares two string slices; equality of the views follows from the
/// injectivity of UTF-8 encoding.
pub fn str_eq(a: &str, b: &str) -> (r: bool)
    ensures
        r == (a@ == b@),
{
    let ab = a.as_bytes();
    let bb = b.as_bytes();
    proof {
        vstd::utf8::encode_utf8_decode_utf8(a@);
        vstd::utf8::encode_utf8_decode_utf8(b@);
    }
    if ab.len() != bb.len() {
        return false;
    }
    let n = ab.len();
    let mut i: usize = 0;
    while i < n
        invariant
            n == ab@.len() == bb@.len(),
            0 <= i <= n,
            ab@ == a.spec_bytes(),
            bb@ == b.spec_bytes(),
            vstd::utf8::decode_utf8(a.spec_bytes()) == a@,
            vstd::utf8::decode_utf8(b.spec_bytes()) == b@,
            forall|j: int| 0 <= j < i ==> ab@[j] == bb@[j],
        decreases n - i,
    {
        if ab[i] != bb[i] {
            return false;
        }
        i += 1;
    }
    proof {
        assert(a.spec_bytes() =~= b.spec_bytes());
    }
    true
}

/// Maps a name token to its descriptor.
pub fn token_type(name: &str) -> (r: Option<FfiType>)
    ensures
        r == token_descriptor(name@),
{
    if str_eq(name, "void") {
        Some(FfiType::Void)
    } else if str_eq(name, "int8") || str_eq(name, "i8") || str_eq(name, "signed char") {
        Some(FfiType::Int8)
    } else if str_eq(name, "int16") || str_eq(name, "i16") || str_eq(name, "short") {
        Some(FfiType::Int16)
    } else if str_eq(name, "int32") || str_eq(name, "i32") || str_eq(name, "int") {
        Some(FfiType::Int32)
    } else if str_eq(name, "int64") || str_eq(name, "i64") || str_eq(name, "long") {
        Some(FfiType::Int64)
    } else if str_eq(name, "uint8") || str_eq(name, "u8") || str_eq(name, "char")
        || str_eq(name, "unsigned char") {
        Some(FfiType::UInt8)
    } else if str_eq(name, "uint16") || str_eq(name, "u16") || str_eq(name, "unsigned short int") {
        Some(FfiType::UInt16)
    } else if str_eq(name, "uint32") || str_eq(name, "u32") || str_eq(name, "unsigned int") {
        Some(FfiType::UInt32)
    } else if str_eq(name, "uint64") || str_eq(name, "u64") || str_eq(name, "unsigned long") {
        Some(FfiType::UInt64)
    } else if str_eq(name, "float32") || str_eq(name, "f32") || str_eq(name, "float") {
        Some(FfiType::Float32)
    } else if str_eq(name, "float64") || str_eq(name, "f64") || str_eq(name, "double") {
        Some(FfiType::Float64)
    } else if str_eq(name, "string") || str_eq(name, "char*") {
        Some(FfiType::String)
    } else if str_eq(name, "pointer") || str_eq(name, "void*") {
        Some(FfiType::Pointer)
    } else {
        None
    }
}

impl FfiType {
    /// Well-formedness: every struct along the tree has at least one field
    /// and no `Void` field.
    pub open spec fn wf(self) -> bool
        decreases self,
    {
        match self {
            FfiType::Struct(fields) => {
                &&& fields@.len() > 0
                &&& forall|j: int| #![trigger fields@[j]]
                    0 <= j < fields@.len() ==> fields@[j].wf() && !(fields@[j]
                        is Void)
            },
            _ => true,
        }
    }
}

/// The parsing relation: `d` is a description of descriptor `t`.
pub open spec fn parses_to(d: TypeDescription, t: FfiType) -> bool
    decreases d,
{
    match d {
        TypeDescription::Name(s) => token_descriptor(s@) == Some(t),
        TypeDescription::Fields(ds) => {
            &&& ds@.len() > 0
            &&& t is Struct
            &&& fields_parse_to(ds@, t->Struct_0@)
        },
    }
}

/// The field-list form of the parsing relation: each description in `ds`
/// describes the corresponding non-void descriptor in `fs`.
pub open spec fn fields_parse_to(ds: Seq<TypeDescription>, fs: Seq<FfiType>) -> bool
    decreases ds,
{
    if ds.len() == 0 {
        fs.len() == 0
    } else {
        &&& fs.len() == ds.len()
        &&& parses_to(ds[0], fs[0])
        &&& !(fs[0] is Void)
        &&& fields_parse_to(ds.drop_first(), fs.drop_first())
    }
}

/// Whether a description is accepted at all.
pub open spec fn parseable(d: TypeDescription) -> bool
    decreases d,
{
    match d {
        TypeDescription::Name(s) => token_descriptor(s@) is Some,
        TypeDescription::Fields(ds) => ds@.len() > 0 && fields_parseable(ds@),
    }
}

/// Whether every description in a field list is accepted and non-void.
pub open spec fn fields_parseable(ds: Seq<TypeDescription>) -> bool
    decreases ds,
{
    if ds.len() == 0 {
        true
    } else {
        &&& parseable(ds[0])
        &&& !parses_to(ds[0], FfiType::Void)
        &&& fields_parseable(ds.drop_first())
    }
}

/// Builds the field-list parsing relation from its elements.
pub proof fn lemma_fields_parse_to_intro(ds: Seq<TypeDescription>, fs: Seq<FfiType>)
    requires
        fs.len() == ds.len(),
        forall|j: int| #![trigger ds[j]]
            0 <= j < ds.len() ==> parses_to(ds[j], fs[j]) && !(fs[j] is Void),
    ensures
        fields_parse_to(ds, fs),
    decreases ds.len(),
{
    if ds.len() == 0 {
    } else {
        assert(parses_to(ds[0], fs[0]) && !(fs[0] is Void));
        assert forall|j: int| #![trigger ds.drop_first()[j]]
            0 <= j < ds.drop_first().len() implies parses_to(
            ds.drop_first()[j],
            fs.drop_first()[j],
        ) && !(fs.drop_first()[j] is Void) by {
            assert(ds.drop_first()[j] == ds[j + 1]);
            assert(fs.drop_first()[j] == fs[j + 1]);
        }
        lemma_fields_parse_to_intro(ds.drop_first(), fs.drop_first());
    }
}

/// Takes the field-list parsing relation apart into its elements.
pub proof fn lemma_fields_parse_to_elim(ds: Seq<TypeDescription>, fs: Seq<FfiType>)
    requires
        fields_parse_to(ds, fs),
    ensures
        fs.len() == ds.len(),
        forall|j: int| #![trigger ds[j]]
            0 <= j < ds.len() ==> parses_to(ds[j], fs[j]) && !(fs[j] is Void),
    decreases ds.len(),
{
    if ds.len() == 0 {
    } else {
        lemma_fields_parse_to_elim(ds.drop_first(), fs.drop_first());
        assert forall|j: int| #![trigger ds[j]]
            0 <= j < ds.len() implies parses_to(ds[j], fs[j]) && !(fs[j] is Void) by {
            if j > 0 {
                assert(ds.drop_first()[j - 1] == ds[j]);
                assert(fs.drop_first()[j - 1] == fs[j]);
            }
        }
    }
}

/// Builds field-list acceptance from its elements.
pub proof fn lemma_fields_parseable_intro(ds: Seq<TypeDescription>)
    requires
        forall|j: int| #![trigger ds[j]]
            0 <= j < ds.len() ==> parseable(ds[j]) && !parses_to(ds[j], FfiType::Void),
    ensures
        fields_parseable(ds),
    decreases ds.len(),
{
    if ds.len() == 0 {
    } else {
        assert(parseable(ds[0]) && !parses_to(ds[0], FfiType::Void));
        assert forall|j: int| #![trigger ds.drop_first()[j]]
            0 <= j < ds.drop_first().len() implies parseable(ds.drop_first()[j]) && !parses_to(
            ds.drop_first()[j],
            FfiType::Void,
        ) by {
            assert(ds.drop_first()[j] == ds[j + 1]);
        }
        lemma_fields_parseable_intro(ds.drop_first());
    }
}

/// Takes field-list acceptance apart into its elements.
pub proof fn lemma_fields_parseable_elim(ds: Seq<TypeDescription>)
    requires
        fields_parseable(ds),
    ensures
        forall|j: int| #![trigger ds[j]]
            0 <= j < ds.len() ==> parseable(ds[j]) && !parses_to(ds[j], FfiType::Void),
    decreases ds.len(),
{
    if ds.len() == 0 {
    } else {
        lemma_fields_parseable_elim(ds.drop_first());
        assert forall|j: int| #![trigger ds[j]]
            0 <= j < ds.len() implies parseable(ds[j]) && !parses_to(ds[j], FfiType::Void) by {
            if j > 0 {
                assert(ds.drop_first()[j - 1] == ds[j]);
            }
        }
    }
}

proof fn lemma_fields_parse_struct(ds: Vec<TypeDescription>, fs: Vec<FfiType>, t: FfiType)
    requires
        ds@.len() > 0,
        fields_parse_to(ds@, fs@),
        t is Struct,
        t->Struct_0@ == fs@,
    ensures
        parses_to(TypeDescription::Fields(ds), t),
{
}

/// A non-empty field list whose members each describe a non-void
/// descriptor describes the struct of those descriptors.
pub proof fn lemma_fields_parse(ds: Vec<TypeDescription>, fs: Vec<FfiType>)
    requires
        ds@.len() > 0,
        fs@.len() == ds@.len(),
        forall|j: int| #![trigger ds@[j]]
            0 <= j < ds@.len() ==> parses_to(ds@[j], fs@[j]) && !(fs@[j] is Void),
    ensures
        parses_to(TypeDescription::Fields(ds), FfiType::Struct(fs)),
{
    let dss = ds@;
    let fss = fs@;
    assert forall|j: int| #![trigger dss[j]]
        0 <= j < dss.len() implies parses_to(dss[j], fss[j]) && !(fss[j] is Void) by {
        assert(dss[j] == ds@[j]);
        assert(fss[j] == fs@[j]);
    }
    lemma_fields_parse_to_intro(dss, fss);
    lemma_fields_parse_struct(ds, fs, FfiType::Struct(fs));
}

/// No description describes both `void` and another descriptor.
pub proof fn lemma_parses_to_void(d: TypeDescription, t: FfiType)
    requires
        parses_to(d, t),
        parses_to(d, FfiType::Void),
    ensures
        t is Void,
{
    match d {
        TypeDescription::Name(s) => {
            assert(token_descriptor(s@) == Some(t));
            assert(token_descriptor(s@) == Some(FfiType::Void));
        },
        TypeDescription::Fields(_) => {
            assert(FfiType::Void is Struct);
        },
    }
}

/// A description that describes some descriptor is accepted.
pub proof fn lemma_parses_to_parseable(d: TypeDescription, t: FfiType)
    requires
        parses_to(d, t),
    ensures
        parseable(d),
    decreases d,
{
    match d {
        TypeDescription::Name(_) => {
        },
        TypeDescription::Fields(ds) => {
            lemma_fields_parse_to_elim(ds@, t->Struct_0@);
            assert forall|j: int| #![trigger ds@[j]]
                0 <= j < ds@.len() implies parseable(ds@[j]) && !parses_to(
                ds@[j],
                FfiType::Void,
            ) by {
                lemma_parses_to_parseable(ds@[j], t->Struct_0@[j]);
                if parses_to(ds@[j], FfiType::Void) {
                    lemma_parses_to_void(ds@[j], t->Struct_0@[j]);
                }
            }
            lemma_fields_parseable_intro(ds@);
        },
    }
}

/// Whatever parsing accepts is well-formed.
pub proof fn lemma_parses_to_wf(d: TypeDescription, t: FfiType)
    requires
        parses_to(d, t),
    ensures
        t.wf(),
    decreases d,
{
    match d {
        TypeDescription::Name(_) => {
        },
        TypeDescription::Fields(ds) => {
            let fields = t->Struct_0;
            lemma_fields_parse_to_elim(ds@, fields@);
            assert forall|j: int| #![trigger fields@[j]]
                0 <= j < fields@.len() implies fields@[j].wf() && !(fields@[j] is Void) by {
                lemma_parses_to_wf(ds@[j], fields@[j]);
            }
        },
    }
}

impl FfiType {
    /// Parses a declarative description into a type descriptor.
    ///
    /// Fails with `InvalidTypeDescriptor` on an unrecognized name token, an
    /// empty field list, or a field that is itself rejected or is `void`
    /// (a field of a struct must occupy space).
    pub fn parse(desc: &TypeDescription) -> (r: Result<FfiType, ConfigError>)
        ensures
            parseable(*desc) ==> (r matches Ok(t) && parses_to(*desc, t)),
            !parseable(*desc) ==> r == Err::<FfiType, ConfigError>(
                ConfigError::InvalidTypeDescriptor,
            ),
        decreases *desc,
    {
        match desc {
            TypeDescription::Name(s) => {
                match token_type(s.as_str()) {
                    Some(t) => Ok(t),
                    None => Err(ConfigError::InvalidTypeDescriptor),
                }
            },
            TypeDescription::Fields(ds) => {
                if ds.len() == 0 {
                    return Err(ConfigError::InvalidTypeDescriptor);
                }
                let mut fields: Vec<FfiType> = Vec::new();
                let n = ds.len();
                let mut i: usize = 0;
                while i < n
                    invariant
                        *desc == TypeDescription::Fields(*ds),
                        n == ds@.len(),
                        0 < n,
                        0 <= i <= n,
                        fields@.len() == i,
                        forall|j: int| #![trigger ds@[j]]
                            0 <= j < i ==> parses_to(ds@[j], fields@[j]) && !(
                            fields@[j] is Void),
                    decreases n - i,
                {
                    proof {
                        broadcast use vstd::std_specs::vec::axiom_vec_index_decreases;

                        assert(decreases_to!(*desc => (*desc)->Fields_0));
                        assert((*desc)->Fields_0 == *ds);
                        assert(decreases_to!(*desc => ds@[i as int]));
                    }
                    match FfiType::parse(&ds[i]) {
                        Ok(t) => {
                            if let FfiType::Void = t {
                                proof {
                                    if parseable(*desc) {
                                        lemma_fields_parseable_elim(ds@);
                                    }
                                }
                                return Err(ConfigError::InvalidTypeDescriptor);
                            }
                            fields.push(t);
                        },
                        Err(_) => {
                            proof {
                                if parseable(*desc) {
                                    lemma_fields_parseable_elim(ds@);
                                }
                            }
                            return Err(ConfigError::InvalidTypeDescriptor);
                        },
                    }
                    i += 1;
                }
                proof {
                    lemma_fields_parse(*ds, fields);
                    assert(parses_to(*desc, FfiType::Struct(fields)));
                    lemma_parses_to_parseable(*desc, FfiType::Struct(fields));
                }
                Ok(FfiType::Struct(fields))
            },
        }
    }
}

} // verus!
