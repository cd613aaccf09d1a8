//! The super type as it is written: a type expression in which `#` marks the
//! identifiers that are free parameters.

use crate::error::{DeriveError, DeriveErrorView};
use crate::markers::{free_params, has_bare_marker, parse_hashmark_types, strip_markers};
use crate::syntax::{parse_type_text, parsed_type};
use crate::type_expr::{TypeExpr, TypeTree};
use vstd::prelude::*;

verus! {

/// A type together with the identifiers in it that are free parameters, not
/// concrete types.
///
/// In `Bar<#T, u32>`, `T` is a free parameter and `u32` is not.
#[derive(Debug, PartialEq, Eq)]
pub struct TypeWithParams {
    /// The type, read from the text without its markers.
    pub ty: TypeExpr,
    /// The type printed as tokens, as it is written out in derived code.
    pub tokens: String,
    /// The identifiers marked as free, in the order of their markers.
    pub params: Vec<String>,
}

/// What a text is read as: the tree of its type and the identifiers that it
/// marks as free, or the reason why it cannot be read.
///
/// A marker without an identifier after it is reported first. Otherwise the
/// text without its markers has to be a type expression.
pub open spec fn read_type(text: Seq<char>) -> Result<(TypeTree, Seq<Seq<char>>), DeriveErrorView> {
    if has_bare_marker(text) {
        Err(DeriveErrorView::MalformedFreeParameter)
    } else {
        match parsed_type(strip_markers(text)) {
            Some(tree) => Ok((tree, free_params(text))),
            None => Err(DeriveErrorView::UnparsableType(strip_markers(text))),
        }
    }
}

impl TypeWithParams {
    /// Reads a type in which `#` marks the free parameters.
    pub fn from_string(value: &str) -> (r: Result<TypeWithParams, DeriveError>)
        ensures
            match r {
                Ok(read) => read_type(value@) == Ok::<(TypeTree, Seq<Seq<char>>), DeriveErrorView>(
                    (read.ty@, read.params.deep_view()),
                ),
                Err(e) => read_type(value@) == Err::<(TypeTree, Seq<Seq<char>>), DeriveErrorView>(
                    e@,
                ),
            },
    {
        let (params, stripped) = match parse_hashmark_types(value) {
            Ok(found) => found,
            Err(e) => {
                return Err(e);
            },
        };
        match parse_type_text(stripped.as_str()) {
            Ok((ty, tokens)) => Ok(TypeWithParams { ty, tokens, params }),
            Err(_) => Err(DeriveError::UnparsableType(stripped)),
        }
    }
}

} // verus!
