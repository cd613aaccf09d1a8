//! The type parameters that a type expression mentions.

use crate::error::{DeriveError, DeriveErrorView};
use crate::generics::{type_names, Generics};
use crate::names::{first_occurrences, missing, missing_names, only, only_names};
use crate::type_expr::{
    argument_tree, segment_tree, type_tree, Argument, ArgumentTree, Arguments, ArgumentsTree,
    Segment, SegmentTree, TypeExpr, TypeTree,
};
use vstd::prelude::*;

verus! {

broadcast use vstd::std_specs::vec::axiom_vec_index_decreases;

/// Whether one of the first `n` of `segments` has a generic argument list.
pub open spec fn has_argument_list(segments: Seq<SegmentTree>, n: int) -> bool
    decreases n,
{
    if 0 < n <= segments.len() {
        has_argument_list(segments, n - 1) || segments[n - 1].arguments is AngleBracketed
    } else {
        false
    }
}

/// The identifiers that may be type parameters in `ty`, in the order in which
/// they are written. One that is written twice stands twice.
///
/// A path that stands as a generic argument (`as_argument`) and has no
/// argument list of its own gives its last identifier: the `T` of `Vec<T>`.
/// One that has an argument list gives what its arguments give, and not its
/// own identifier: `Vec<T>` gives `T`, not `Vec`. A path that is no argument
/// gives what its arguments give. What wraps one type gives what that type
/// gives, a tuple what its elements give. Lifetimes give nothing.
pub open spec fn candidates(ty: TypeTree, as_argument: bool) -> Seq<Seq<char>>
    decreases ty,
{
    match ty {
        TypeTree::Named(segments) => if as_argument && !has_argument_list(
            segments,
            segments.len() as int,
        ) {
            if segments.len() > 0 {
                seq![segments.last().ident]
            } else {
                seq![]
            }
        } else {
            candidates_of_segments(segments, segments.len() as int)
        },
        TypeTree::Reference(_, _, inner) => candidates(*inner, as_argument),
        TypeTree::Pointer(inner) => candidates(*inner, as_argument),
        TypeTree::Array(inner, _) => candidates(*inner, as_argument),
        TypeTree::Slice(inner) => candidates(*inner, as_argument),
        TypeTree::Tuple(elems) => candidates_of_types(elems, elems.len() as int, as_argument),
        TypeTree::Grouped(inner) => candidates(*inner, as_argument),
        TypeTree::Parenthesized(inner) => candidates(*inner, as_argument),
        TypeTree::Opaque => seq![],
    }
}

/// What the arguments of the first `n` of `segments` give.
pub open spec fn candidates_of_segments(segments: Seq<SegmentTree>, n: int) -> Seq<Seq<char>>
    decreases segments, n,
{
    if 0 < n <= segments.len() {
        candidates_of_segments(segments, n - 1) + candidates_of_arguments(
            segments[n - 1].arguments,
        )
    } else {
        seq![]
    }
}

/// What the arguments of one path segment give.
pub open spec fn candidates_of_arguments(arguments: ArgumentsTree) -> Seq<Seq<char>>
    decreases arguments,
{
    match arguments {
        ArgumentsTree::AngleBracketed(list) => candidates_of_argument_list(list, list.len() as int),
        _ => seq![],
    }
}

/// What the first `n` arguments of `list` give.
pub open spec fn candidates_of_argument_list(list: Seq<ArgumentTree>, n: int) -> Seq<Seq<char>>
    decreases list, n,
{
    if 0 < n <= list.len() {
        candidates_of_argument_list(list, n - 1) + candidates_of_argument(list[n - 1])
    } else {
        seq![]
    }
}

/// What one generic argument gives.
pub open spec fn candidates_of_argument(argument: ArgumentTree) -> Seq<Seq<char>>
    decreases argument,
{
    match argument {
        ArgumentTree::Lifetime(_) => seq![],
        ArgumentTree::Type(ty) => candidates(ty, true),
    }
}

/// What the first `n` of `types` give.
pub open spec fn candidates_of_types(types: Seq<TypeTree>, n: int, as_argument: bool) -> Seq<
    Seq<char>,
>
    decreases types, n,
{
    if 0 < n <= types.len() {
        candidates_of_types(types, n - 1, as_argument) + candidates(types[n - 1], as_argument)
    } else {
        seq![]
    }
}

/// The identifiers that `ty` mentions as type parameters, in the order in
/// which they are written.
pub open spec fn type_params_of(ty: TypeTree) -> Seq<Seq<char>> {
    candidates(ty, false)
}

/// The type parameters that a conversion from `ty` has to introduce beside
/// the type parameters `declared`, or the reason why there is no such
/// conversion. `free` holds the identifiers that the text of `ty` marked as
/// free.
///
/// Every declared parameter has to be among the identifiers that `ty`
/// mentions, marked or not; the first that is not is reported, with those
/// that are mentioned. Otherwise the result holds mentioned identifiers that
/// are not declared, each kept where it is first seen. Where nothing is
/// marked these are all of them. Where something is marked, they are the
/// marked ones only: an identifier that is neither marked nor declared then
/// names a concrete type.
pub open spec fn extra_type_params(
    ty: TypeTree,
    free: Seq<Seq<char>>,
    declared: Seq<Seq<char>>,
) -> Result<Seq<Seq<char>>, DeriveErrorView> {
    let mentioned = first_occurrences(type_params_of(ty));
    let unknown = missing(declared, mentioned);
    if unknown.len() > 0 {
        Err(DeriveErrorView::UnknownTypeParameter(unknown[0], mentioned))
    } else if free.len() == 0 {
        Ok(missing(mentioned, declared))
    } else {
        Ok(missing(only(mentioned, free), declared))
    }
}

/// Whether one of `segments` has a generic argument list.
fn any_argument_list(segments: &Vec<Segment>) -> (found: bool)
    ensures
        found == has_argument_list(
            Seq::new(segments.len() as nat, |i: int| segment_tree(segments[i])),
            segments.len() as int,
        ),
{
    let ghost trees = Seq::new(segments.len() as nat, |i: int| segment_tree(segments[i]));
    let mut i: usize = 0;
    while i < segments.len()
        invariant
            i <= segments.len(),
            trees == Seq::new(segments.len() as nat, |i: int| segment_tree(segments[i])),
            !has_argument_list(trees, i as int),
        decreases segments.len() - i,
    {
        if let Arguments::AngleBracketed(_) = &segments[i].arguments {
            proof {
                assert(trees[i as int].arguments is AngleBracketed);
                lemma_argument_list_found(trees, i + 1, segments.len() as int);
            }
            return true;
        }
        assert(!(trees[i as int].arguments is AngleBracketed));
        i += 1;
    }
    false
}

/// An argument list among the first `n` segments is one among the first `m`,
/// where `m` is no less.
proof fn lemma_argument_list_found(segments: Seq<SegmentTree>, n: int, m: int)
    requires
        0 <= n <= m <= segments.len(),
        has_argument_list(segments, n),
    ensures
        has_argument_list(segments, m),
    decreases m - n,
{
    if n < m {
        lemma_argument_list_found(segments, n + 1, m);
    }
}

/// Appends to `out` what `ty` gives.
fn push_candidates(ty: &TypeExpr, as_argument: bool, out: &mut Vec<String>)
    ensures
        final(out).deep_view() == old(out).deep_view() + candidates(ty@, as_argument),
    decreases ty,
{
    match ty {
        TypeExpr::Named(segments) => {
            assert(ty@->Named_0 =~= Seq::new(
                segments.len() as nat,
                |i: int| segment_tree(segments[i]),
            ));
            if as_argument && !any_argument_list(segments) {
                if segments.len() > 0 {
                    let ghost before = out.deep_view();
                    out.push(segments[segments.len() - 1].ident.clone());
                    proof {
                        let trees = ty@->Named_0;
                        assert(trees.last() == segment_tree(segments[segments.len() - 1]));
                        assert(out.deep_view() =~= before + seq![trees.last().ident]);
                    }
                } else {
                    assert(out.deep_view() =~= old(out).deep_view() + Seq::<Seq<char>>::empty());
                }
            } else {
                let mut i: usize = 0;
                assert(out.deep_view() =~= old(out).deep_view() + Seq::<Seq<char>>::empty());
                while i < segments.len()
                    invariant
                        i <= segments.len(),
                        ty matches TypeExpr::Named(list) && list == segments,
                        out.deep_view() == old(out).deep_view() + candidates_of_segments(
                            ty@->Named_0,
                            i as int,
                        ),
                    decreases segments.len() - i,
                {
                    push_candidates_of_arguments(&segments[i].arguments, out);
                    proof {
                        let trees = ty@->Named_0;
                        assert(trees.len() == segments.len());
                        assert(trees[i as int] == segment_tree(segments[i as int]));
                        assert(trees[i as int].arguments == segments[i as int].arguments@);
                        assert(out.deep_view() =~= old(out).deep_view() + candidates_of_segments(
                            trees,
                            i + 1,
                        ));
                    }
                    i += 1;
                }
            }
        },
        TypeExpr::Reference(_, _, inner) => push_candidates(inner, as_argument, out),
        TypeExpr::Pointer(inner) => push_candidates(inner, as_argument, out),
        TypeExpr::Array(inner, _) => push_candidates(inner, as_argument, out),
        TypeExpr::Slice(inner) => push_candidates(inner, as_argument, out),
        TypeExpr::Tuple(elems) => {
            let mut i: usize = 0;
            assert(out.deep_view() =~= old(out).deep_view() + Seq::<Seq<char>>::empty());
            while i < elems.len()
                invariant
                    i <= elems.len(),
                    ty matches TypeExpr::Tuple(list) && list == elems,
                    out.deep_view() == old(out).deep_view() + candidates_of_types(
                        ty@->Tuple_0,
                        i as int,
                        as_argument,
                    ),
                decreases elems.len() - i,
            {
                push_candidates(&elems[i], as_argument, out);
                proof {
                    let trees = ty@->Tuple_0;
                    assert(trees.len() == elems.len());
                    assert(trees[i as int] == type_tree(elems[i as int]));
                    assert(out.deep_view() =~= old(out).deep_view() + candidates_of_types(
                        trees,
                        i + 1,
                        as_argument,
                    ));
                }
                i += 1;
            }
        },
        TypeExpr::Grouped(inner) => push_candidates(inner, as_argument, out),
        TypeExpr::Parenthesized(inner) => push_candidates(inner, as_argument, out),
        TypeExpr::Opaque => {
            assert(out.deep_view() =~= old(out).deep_view() + Seq::<Seq<char>>::empty());
        },
    }
}

/// Appends to `out` what the arguments of one path segment give.
fn push_candidates_of_arguments(arguments: &Arguments, out: &mut Vec<String>)
    ensures
        final(out).deep_view() == old(out).deep_view() + candidates_of_arguments(arguments@),
    decreases arguments,
{
    assert(out.deep_view() =~= old(out).deep_view() + Seq::<Seq<char>>::empty());
    match arguments {
        Arguments::AngleBracketed(list) => {
            let mut i: usize = 0;
            while i < list.len()
                invariant
                    i <= list.len(),
                    arguments matches Arguments::AngleBracketed(l) && l == list,
                    out.deep_view() == old(out).deep_view() + candidates_of_argument_list(
                        arguments@->AngleBracketed_0,
                        i as int,
                    ),
                decreases list.len() - i,
            {
                let ghost before = out.deep_view();
                match &list[i] {
                    Argument::Lifetime(_) => {
                        assert(out.deep_view() =~= before + Seq::<Seq<char>>::empty());
                    },
                    Argument::Type(ty) => push_candidates(ty, true, out),
                }
                proof {
                    let trees = arguments@->AngleBracketed_0;
                    assert(trees.len() == list.len());
                    assert(trees[i as int] == argument_tree(list[i as int]));
                    assert(out.deep_view() == before + candidates_of_argument(trees[i as int]));
                    assert(out.deep_view() =~= old(out).deep_view() + candidates_of_argument_list(
                        trees,
                        i + 1,
                    ));
                }
                i += 1;
            }
        },
        _ => {},
    }
}

/// Collects the identifiers that a type expression mentions as type
/// parameters, in the order in which they are written.
pub fn collect_all_type_params(ty: &TypeExpr) -> (found: Vec<String>)
    ensures
        found.deep_view() == type_params_of(ty@),
{
    let mut found: Vec<String> = Vec::new();
    push_candidates(ty, false, &mut found);
    found
}

/// Collects the type parameters that a conversion from `from_type` has to
/// introduce beside those that the sub struct declares. `free_params` holds
/// the identifiers that the text of `from_type` marked as free.
pub fn collect_extra_type_params(
    from_type: &TypeExpr,
    free_params: &Vec<String>,
    subtype_generics: &Generics,
) -> (r: Result<Vec<String>, DeriveError>)
    ensures
        match r {
            Ok(extra) => extra_type_params(
                from_type@,
                free_params.deep_view(),
                type_names(subtype_generics@),
            ) == Ok::<Seq<Seq<char>>, DeriveErrorView>(extra.deep_view()),
            Err(e) => extra_type_params(
                from_type@,
                free_params.deep_view(),
                type_names(subtype_generics@),
            ) == Err::<Seq<Seq<char>>, DeriveErrorView>(e@),
        },
{
    let all = collect_all_type_params(from_type);
    let nothing: Vec<String> = Vec::new();
    assert(nothing.deep_view() =~= Seq::<Seq<char>>::empty());
    let mentioned = missing_names(&all, &nothing);
    let declared = subtype_generics.type_names();
    let unknown = missing_names(&declared, &mentioned);
    if unknown.len() > 0 {
        return Err(DeriveError::UnknownTypeParameter(unknown[0].clone(), mentioned));
    }
    if free_params.len() == 0 {
        Ok(missing_names(&mentioned, &declared))
    } else {
        let marked = only_names(&mentioned, free_params);
        Ok(missing_names(&marked, &declared))
    }
}

} // verus!
