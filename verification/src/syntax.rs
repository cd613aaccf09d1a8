//! The grammar of type expressions, which is syn's.
//!
//! Everything in this file is trusted rather than proved: it declares syn's
//! types and wraps the calls that read a type expression from text and carry
//! it over into a [`TypeExpr`].

use crate::type_expr::{Argument, Arguments, Segment, TypeExpr, TypeTree};
use quote::ToTokens;
use vstd::prelude::*;

verus! {

/// `syn::Type`, a parsed type expression.
#[verifier::external_type_specification]
#[verifier::external_body]
pub struct ExType(syn::Type);

/// `syn::PathSegment`, one segment of a path with its arguments.
#[verifier::external_type_specification]
#[verifier::external_body]
pub struct ExPathSegment(syn::PathSegment);

/// `syn::GenericArgument`, one argument between angle brackets.
#[verifier::external_type_specification]
#[verifier::external_body]
pub struct ExGenericArgument(syn::GenericArgument);

/// `syn::Error`, the reason why a text could not be parsed.
#[verifier::external_type_specification]
#[verifier::external_body]
pub struct ExError(syn::Error);

/// What `syn::parse_str::<syn::Type>` makes of `text`: the tree of the type
/// that it reads, or `None` where it reports an error.
pub uninterp spec fn parsed_type(text: Seq<char>) -> Option<TypeTree>;

/// Calls `syn::parse_str::<syn::Type>` on `text`.
///
/// Trusted: that the call succeeds exactly where [`parsed_type`] is `Some`,
/// and that the tree of the first component is then that value. The second
/// component is the parsed type printed as tokens; how the tokens are spaced
/// is up to the printer, and nothing is claimed of it.
#[verifier::external_body]
pub(crate) fn parse_type_text(text: &str) -> (r: Result<(TypeExpr, String), syn::Error>)
    ensures
        r is Ok <==> parsed_type(text@) is Some,
        r matches Ok(parsed) ==> Some(parsed.0@) == parsed_type(text@),
{
    let ty = syn::parse_str::<syn::Type>(text)?;
    Ok((type_expr_of(&ty), ty.to_token_stream().to_string()))
}

/// Carries a `syn::Type` over: a path, a tuple, a reference or an array
/// here, the other variants in [`wrapper_expr_of`]. The qualified self type
/// of a path is left behind.
#[verifier::external_body]
fn type_expr_of(ty: &syn::Type) -> TypeExpr {
    match ty {
        syn::Type::Path(t) => TypeExpr::Named(t.path.segments.iter().map(segment_of).collect()),
        syn::Type::Tuple(t) => TypeExpr::Tuple(t.elems.iter().map(type_expr_of).collect()),
        syn::Type::Reference(t) => TypeExpr::Reference(
            t.mutability.is_some(),
            t.lifetime.as_ref().map(|lifetime| lifetime.ident.to_string()),
            inner_of(&t.elem),
        ),
        syn::Type::Array(t) => TypeExpr::Array(inner_of(&t.elem), t.len.to_token_stream().to_string()),
        other => wrapper_expr_of(other),
    }
}

/// Carries over a `syn::Type` that wraps one other type and adds no name to
/// it. Whether a raw pointer is `const` or `mut` is left behind. A variant
/// that has no counterpart becomes [`TypeExpr::Opaque`].
#[verifier::external_body]
fn wrapper_expr_of(ty: &syn::Type) -> TypeExpr {
    match ty {
        syn::Type::Group(t) => TypeExpr::Grouped(inner_of(&t.elem)),
        syn::Type::Paren(t) => TypeExpr::Parenthesized(inner_of(&t.elem)),
        syn::Type::Ptr(t) => TypeExpr::Pointer(inner_of(&t.elem)),
        syn::Type::Slice(t) => TypeExpr::Slice(inner_of(&t.elem)),
        _ => TypeExpr::Opaque,
    }
}

/// Carries over the type that a `syn::Type` holds in a box.
#[verifier::external_body]
fn inner_of(ty: &syn::Type) -> Box<TypeExpr> {
    Box::new(type_expr_of(ty))
}

/// Carries a `syn::PathSegment` over: its identifier as text, and its
/// arguments.
#[verifier::external_body]
fn segment_of(segment: &syn::PathSegment) -> Segment {
    let arguments = match &segment.arguments {
        syn::PathArguments::None => Arguments::Absent,
        syn::PathArguments::AngleBracketed(list) => Arguments::AngleBracketed(
            list.args.iter().map(argument_of).collect(),
        ),
        syn::PathArguments::Parenthesized(_) => Arguments::Parenthesized,
    };
    Segment { ident: segment.ident.to_string(), arguments }
}

/// Carries a `syn::GenericArgument` over. A const expression, a binding and
/// a constraint have no counterpart and become an opaque type.
#[verifier::external_body]
fn argument_of(argument: &syn::GenericArgument) -> Argument {
    match argument {
        syn::GenericArgument::Lifetime(lifetime) => Argument::Lifetime(lifetime.ident.to_string()),
        syn::GenericArgument::Type(ty) => Argument::Type(type_expr_of(ty)),
        _ => Argument::Type(TypeExpr::Opaque),
    }
}

} // verus!
