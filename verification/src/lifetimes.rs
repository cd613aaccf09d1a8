//! The lifetimes that a type expression mentions.

use crate::type_expr::{
    argument_tree, segment_tree, Argument, ArgumentTree, Arguments, ArgumentsTree, SegmentTree,
    TypeExpr, TypeTree,
};
use crate::error::{DeriveError, DeriveErrorView};
use crate::generics::{lifetime_names, Generics};
use crate::names::{contains_name, missing, missing_names};
use vstd::prelude::*;

verus! {

broadcast use vstd::std_specs::vec::axiom_vec_index_decreases;

/// The lifetimes that `ty` mentions, in the order in which they are written:
/// those of its references and those among its generic arguments, however
/// deep. One that is written twice stands twice.
pub open spec fn lifetimes_of(ty: TypeTree) -> Seq<Seq<char>>
    decreases ty,
{
    match ty {
        TypeTree::Named(segments) => lifetimes_of_segments(segments, segments.len() as int),
        TypeTree::Reference(_, lifetime, inner) => match lifetime {
            Some(name) => seq![name] + lifetimes_of(*inner),
            None => lifetimes_of(*inner),
        },
        TypeTree::Pointer(inner) => lifetimes_of(*inner),
        TypeTree::Array(inner, _) => lifetimes_of(*inner),
        TypeTree::Slice(inner) => lifetimes_of(*inner),
        TypeTree::Tuple(elems) => lifetimes_of_types(elems, elems.len() as int),
        TypeTree::Grouped(inner) => lifetimes_of(*inner),
        TypeTree::Parenthesized(inner) => lifetimes_of(*inner),
        TypeTree::Opaque => seq![],
    }
}

/// The lifetimes that the first `n` of `segments` mention.
pub open spec fn lifetimes_of_segments(segments: Seq<SegmentTree>, n: int) -> Seq<Seq<char>>
    decreases segments, n,
{
    if 0 < n <= segments.len() {
        lifetimes_of_segments(segments, n - 1) + lifetimes_of_arguments(segments[n - 1].arguments)
    } else {
        seq![]
    }
}

/// The lifetimes that the arguments of one path segment mention.
pub open spec fn lifetimes_of_arguments(arguments: ArgumentsTree) -> Seq<Seq<char>>
    decreases arguments,
{
    match arguments {
        ArgumentsTree::AngleBracketed(list) => lifetimes_of_argument_list(list, list.len() as int),
        _ => seq![],
    }
}

/// The lifetimes that the first `n` arguments of `list` mention.
pub open spec fn lifetimes_of_argument_list(list: Seq<ArgumentTree>, n: int) -> Seq<Seq<char>>
    decreases list, n,
{
    if 0 < n <= list.len() {
        lifetimes_of_argument_list(list, n - 1) + lifetimes_of_argument(list[n - 1])
    } else {
        seq![]
    }
}

/// The lifetimes that one generic argument mentions.
pub open spec fn lifetimes_of_argument(argument: ArgumentTree) -> Seq<Seq<char>>
    decreases argument,
{
    match argument {
        ArgumentTree::Lifetime(name) => seq![name],
        ArgumentTree::Type(ty) => lifetimes_of(ty),
    }
}

/// The lifetimes that the first `n` of `types` mention.
pub open spec fn lifetimes_of_types(types: Seq<TypeTree>, n: int) -> Seq<Seq<char>>
    decreases types, n,
{
    if 0 < n <= types.len() {
        lifetimes_of_types(types, n - 1) + lifetimes_of(types[n - 1])
    } else {
        seq![]
    }
}

/// The anonymous lifetime `'_`, without its apostrophe.
pub open spec fn anonymous_lifetime() -> Seq<char> {
    "_"@
}

/// The lifetime `'static`, without its apostrophe.
pub open spec fn static_lifetime() -> Seq<char> {
    "static"@
}

/// The lifetimes that `ty` mentions and that need a parameter: all but
/// `'static`, each kept where it is first seen.
pub open spec fn named_lifetimes(ty: TypeTree) -> Seq<Seq<char>> {
    missing(lifetimes_of(ty), seq![static_lifetime()])
}

/// The lifetimes that a conversion from `ty` has to introduce beside the
/// lifetimes `declared`, or the reason why there is no such conversion.
///
/// The anonymous lifetime is refused wherever it stands. Then every declared
/// lifetime has to be among those that `ty` mentions; the first that is not
/// is reported, with those that are mentioned. Otherwise the result holds the
/// mentioned lifetimes that are not declared, `'static` left out, each kept
/// where it is first seen.
pub open spec fn extra_lifetimes(ty: TypeTree, declared: Seq<Seq<char>>) -> Result<
    Seq<Seq<char>>,
    DeriveErrorView,
> {
    let named = named_lifetimes(ty);
    let unknown = missing(declared, named);
    if lifetimes_of(ty).contains(anonymous_lifetime()) {
        Err(DeriveErrorView::AnonymousLifetimeUnsupported)
    } else if unknown.len() > 0 {
        Err(DeriveErrorView::UnknownLifetimeParameter(unknown[0], named))
    } else {
        Ok(missing(named, declared))
    }
}

/// Appends to `out` the lifetimes that `ty` mentions.
fn push_lifetimes(ty: &TypeExpr, out: &mut Vec<String>)
    ensures
        final(out).deep_view() == old(out).deep_view() + lifetimes_of(ty@),
    decreases ty,
{
    match ty {
        TypeExpr::Named(segments) => {
            let mut i: usize = 0;
            while i < segments.len()
                invariant
                    i <= segments.len(),
                    ty matches TypeExpr::Named(list) && list == segments,
                    out.deep_view() == old(out).deep_view() + lifetimes_of_segments(
                        ty@->Named_0,
                        i as int,
                    ),
                decreases segments.len() - i,
            {
                push_lifetimes_of_arguments(&segments[i].arguments, out);
                proof {
                    let trees = ty@->Named_0;
                    assert(trees.len() == segments.len());
                    assert(trees[i as int] == segment_tree(segments[i as int]));
                    assert(trees[i as int].arguments == segments[i as int].arguments@);
                    assert(out.deep_view() =~= old(out).deep_view() + lifetimes_of_segments(
                        trees,
                        i + 1,
                    ));
                }
                i += 1;
            }
        },
        TypeExpr::Reference(_, lifetime, inner) => {
            match lifetime {
                Some(name) => {
                    let ghost before = out.deep_view();
                    out.push(name.clone());
                    assert(out.deep_view() =~= before + seq![name@]);
                },
                None => {},
            }
            push_lifetimes(inner, out);
        },
        TypeExpr::Pointer(inner) => push_lifetimes(inner, out),
        TypeExpr::Array(inner, _) => push_lifetimes(inner, out),
        TypeExpr::Slice(inner) => push_lifetimes(inner, out),
        TypeExpr::Tuple(elems) => {
            let mut i: usize = 0;
            while i < elems.len()
                invariant
                    i <= elems.len(),
                    ty matches TypeExpr::Tuple(list) && list == elems,
                    out.deep_view() == old(out).deep_view() + lifetimes_of_types(
                        ty@->Tuple_0,
                        i as int,
                    ),
                decreases elems.len() - i,
            {
                push_lifetimes(&elems[i], out);
                i += 1;
            }
        },
        TypeExpr::Grouped(inner) => push_lifetimes(inner, out),
        TypeExpr::Parenthesized(inner) => push_lifetimes(inner, out),
        TypeExpr::Opaque => {},
    }
}

/// Appends to `out` the lifetimes that the arguments of one path segment
/// mention.
fn push_lifetimes_of_arguments(arguments: &Arguments, out: &mut Vec<String>)
    ensures
        final(out).deep_view() == old(out).deep_view() + lifetimes_of_arguments(arguments@),
    decreases arguments,
{
    match arguments {
        Arguments::AngleBracketed(list) => {
            let mut i: usize = 0;
            while i < list.len()
                invariant
                    i <= list.len(),
                    arguments matches Arguments::AngleBracketed(l) && l == list,
                    out.deep_view() == old(out).deep_view() + lifetimes_of_argument_list(
                        arguments@->AngleBracketed_0,
                        i as int,
                    ),
                decreases list.len() - i,
            {
                let ghost before = out.deep_view();
                match &list[i] {
                    Argument::Lifetime(name) => {
                        out.push(name.clone());
                        assert(out.deep_view() =~= before + seq![name@]);
                    },
                    Argument::Type(ty) => push_lifetimes(ty, out),
                }
                proof {
                    let trees = arguments@->AngleBracketed_0;
                    assert(trees.len() == list.len());
                    assert(trees[i as int] == argument_tree(list[i as int]));
                    assert(out.deep_view() == before + lifetimes_of_argument(trees[i as int]));
                    assert(out.deep_view() =~= old(out).deep_view() + lifetimes_of_argument_list(
                        trees,
                        i + 1,
                    ));
                }
                i += 1;
            }
        },
        _ => {},
    }
}

/// Collects the lifetimes that a type expression mentions, in the order in
/// which they are written.
pub fn collect_all_lifetimes(ty: &TypeExpr) -> (found: Vec<String>)
    ensures
        found.deep_view() == lifetimes_of(ty@),
{
    let mut found: Vec<String> = Vec::new();
    push_lifetimes(ty, &mut found);
    found
}

/// Collects the lifetimes that a conversion from `from_type` has to
/// introduce beside those that the sub struct declares.
pub fn collect_extra_lifetimes(from_type: &TypeExpr, subtype_generics: &Generics) -> (r: Result<
    Vec<String>,
    DeriveError,
>)
    ensures
        match r {
            Ok(extra) => extra_lifetimes(from_type@, lifetime_names(subtype_generics@)) == Ok::<
                Seq<Seq<char>>,
                DeriveErrorView,
            >(extra.deep_view()),
            Err(e) => extra_lifetimes(from_type@, lifetime_names(subtype_generics@)) == Err::<
                Seq<Seq<char>>,
                DeriveErrorView,
            >(e@),
        },
{
    let all = collect_all_lifetimes(from_type);
    if contains_name(&all, &"_".to_owned()) {
        return Err(DeriveError::AnonymousLifetimeUnsupported);
    }
    let mut ignored: Vec<String> = Vec::new();
    ignored.push("static".to_owned());
    assert(ignored.deep_view() =~= seq![static_lifetime()]);
    let named = missing_names(&all, &ignored);
    let declared = subtype_generics.lifetime_names();
    let unknown = missing_names(&declared, &named);
    if unknown.len() > 0 {
        return Err(DeriveError::UnknownLifetimeParameter(unknown[0].clone(), named));
    }
    Ok(missing_names(&named, &declared))
}

} // verus!
