//! Symbol shapes: a named native function signature, parsed from a
//! declarative description.

use vstd::prelude::*;
use crate::errors::ConfigError;
use crate::types::{
    FfiType, TypeDescription, parses_to, parseable, fields_parse_to, fields_parseable,
    lemma_fields_parse_to_intro, lemma_fields_parseable_intro, lemma_fields_parseable_elim,
    lemma_parses_to_void, lemma_parses_to_parseable,
};

verus! {

/// A named function signature: an identifier, the ordered parameter
/// descriptors (call-site argument order, fixed arity), and one result
/// descriptor.
///
/// The parameter count and order must exactly match the native function's
/// real signature; no verification against the native binary is possible,
/// so that correspondence is the caller's obligation.  A mismatch makes
/// the eventual native call undefined behaviour.
#[derive(Debug, PartialEq, Eq)]
pub struct SymbolShape {
    pub ident: String,
    pub parameters: Vec<FfiType>,
    pub result: FfiType,
}

/// A declarative description of a symbol shape; a missing field is a
/// configuration error, not a default.
#[derive(Debug, PartialEq, Eq)]
pub struct ShapeDescription {
    pub name: Option<String>,
    pub parameters: Option<Vec<TypeDescription>>,
    pub result: Option<TypeDescription>,
}

/// The parsing relation for symbol shapes: every parameter descriptor is
/// accepted and non-void (an empty parameter list is how a nullary
/// signature is spelled, as in C), and the result descriptor is accepted.
pub open spec fn shape_parses_to(d: ShapeDescription, s: SymbolShape) -> bool {
    &&& d.name matches Some(n) && s.ident@ == n@
    &&& d.parameters matches Some(ps) && fields_parse_to(ps@, s.parameters@)
    &&& d.result matches Some(rd) && parses_to(rd, s.result)
}

/// Whether a shape description is accepted at all.
pub open spec fn shape_parseable(d: ShapeDescription) -> bool {
    &&& d.name is Some
    &&& d.parameters matches Some(ps) && fields_parseable(ps@)
    &&& d.result matches Some(rd) && parseable(rd)
}

impl SymbolShape {
    /// Parses a declarative description into a symbol shape.
    ///
    /// Fails with `InvalidSymbolShape` when the name, parameter list or
    /// result is missing, when a parameter or the result fails to parse as
    /// a type descriptor, or when a parameter is `void`.
    pub fn parse(desc: &ShapeDescription) -> (r: Result<SymbolShape, ConfigError>)
        ensures
            shape_parseable(*desc) ==> (r matches Ok(s) && shape_parses_to(*desc, s)),
            !shape_parseable(*desc) ==> r == Err::<SymbolShape, ConfigError>(
                ConfigError::InvalidSymbolShape,
            ),
    {
        let name: String = match &desc.name {
            Some(n) => n.clone(),
            None => {
                return Err(ConfigError::InvalidSymbolShape);
            },
        };
        let pds: &Vec<TypeDescription> = match &desc.parameters {
            Some(p) => p,
            None => {
                return Err(ConfigError::InvalidSymbolShape);
            },
        };
        let rd: &TypeDescription = match &desc.result {
            Some(r) => r,
            None => {
                return Err(ConfigError::InvalidSymbolShape);
            },
        };
        let mut params: Vec<FfiType> = Vec::new();
        let n = pds.len();
        let mut i: usize = 0;
        while i < n
            invariant
                desc.parameters == Some(*pds),
                n == pds@.len(),
                0 <= i <= n,
                params@.len() == i,
                forall|j: int| #![trigger pds@[j]]
                    0 <= j < i ==> parses_to(pds@[j], params@[j]) && !(params@[j] is Void),
            decreases n - i,
        {
            match FfiType::parse(&pds[i]) {
                Ok(t) => {
                    if let FfiType::Void = t {
                        proof {
                            if shape_parseable(*desc) {
                                lemma_fields_parseable_elim(pds@);
                            }
                        }
                        return Err(ConfigError::InvalidSymbolShape);
                    }
                    params.push(t);
                },
                Err(_) => {
                    proof {
                        if shape_parseable(*desc) {
                            lemma_fields_parseable_elim(pds@);
                        }
                    }
                    return Err(ConfigError::InvalidSymbolShape);
                },
            }
            i += 1;
        }
        let result: FfiType = match FfiType::parse(rd) {
            Ok(t) => t,
            Err(_) => {
                return Err(ConfigError::InvalidSymbolShape);
            },
        };
        proof {
            lemma_fields_parse_to_intro(pds@, params@);
            assert forall|j: int| #![trigger pds@[j]]
                0 <= j < pds@.len() implies parseable(pds@[j]) && !parses_to(
                pds@[j],
                FfiType::Void,
            ) by {
                lemma_parses_to_parseable(pds@[j], params@[j]);
                if parses_to(pds@[j], FfiType::Void) {
                    lemma_parses_to_void(pds@[j], params@[j]);
                }
            }
            lemma_fields_parseable_intro(pds@);
            lemma_parses_to_parseable(*rd, result);
        }
        Ok(SymbolShape { ident: name, parameters: params, result })
    }
}

} // verus!
