//! What holds of reading and reconciling, whatever the input.

use crate::error::DeriveErrorView;
use crate::generics::{
    as_lifetimes, as_types, composed, distinct_within_kind, lemma_distinct_concat,
    lemma_names_with_lifetimes, lemma_names_with_types, lifetime_names, type_names, AppendOrder,
    GenericParamView,
};
use crate::lifetimes::{
    anonymous_lifetime, extra_lifetimes, lifetimes_of, lifetimes_of_argument,
    lifetimes_of_argument_list, lifetimes_of_arguments, lifetimes_of_segments, lifetimes_of_types,
    named_lifetimes, static_lifetime,
};
use crate::markers::{
    free_params, has_bare_marker, is_ident_char, is_marker, marked_before, run_end, strip_markers,
};
use crate::names::{
    first_occurrences, lemma_missing, lemma_missing_keeps, lemma_only, missing, only,
};
use crate::reconcile::reconciled;
use crate::type_expr::{ArgumentTree, ArgumentsTree, SegmentTree, TypeTree};
use crate::type_params::{
    candidates, candidates_of_arguments, candidates_of_argument_list, candidates_of_segments,
    candidates_of_types, extra_type_params, type_params_of,
};
use crate::from_type::read_type;
use vstd::prelude::*;

verus! {

/// Whether some path within `ty` has a generic argument.
pub open spec fn mentions_generic_argument(ty: TypeTree) -> bool
    decreases ty,
{
    match ty {
        TypeTree::Named(segments) => exists|i: int|
            0 <= i < segments.len() && has_argument(#[trigger] segments[i]),
        TypeTree::Reference(_, _, inner) => mentions_generic_argument(*inner),
        TypeTree::Pointer(inner) => mentions_generic_argument(*inner),
        TypeTree::Array(inner, _) => mentions_generic_argument(*inner),
        TypeTree::Slice(inner) => mentions_generic_argument(*inner),
        TypeTree::Tuple(elems) => exists|i: int|
            0 <= i < elems.len() && mentions_generic_argument(#[trigger] elems[i]),
        TypeTree::Grouped(inner) => mentions_generic_argument(*inner),
        TypeTree::Parenthesized(inner) => mentions_generic_argument(*inner),
        TypeTree::Opaque => false,
    }
}

/// Whether `segment` has at least one generic argument.
pub open spec fn has_argument(segment: SegmentTree) -> bool {
    segment.arguments matches ArgumentsTree::AngleBracketed(list) && list.len() > 0
}

/// Whether a reference within `ty`, outside of any generic argument, is
/// written with a lifetime.
pub open spec fn annotates_reference(ty: TypeTree) -> bool
    decreases ty,
{
    match ty {
        TypeTree::Named(_) => false,
        TypeTree::Reference(_, lifetime, inner) => lifetime is Some || annotates_reference(*inner),
        TypeTree::Pointer(inner) => annotates_reference(*inner),
        TypeTree::Array(inner, _) => annotates_reference(*inner),
        TypeTree::Slice(inner) => annotates_reference(*inner),
        TypeTree::Tuple(elems) => exists|i: int|
            0 <= i < elems.len() && annotates_reference(#[trigger] elems[i]),
        TypeTree::Grouped(inner) => annotates_reference(*inner),
        TypeTree::Parenthesized(inner) => annotates_reference(*inner),
        TypeTree::Opaque => false,
    }
}

/// Segments without generic arguments give no type parameter and no
/// lifetime.
proof fn lemma_segments_without_arguments(segments: Seq<SegmentTree>, n: int)
    requires
        0 <= n <= segments.len(),
        forall|i: int| 0 <= i < segments.len() ==> !has_argument(#[trigger] segments[i]),
    ensures
        candidates_of_segments(segments, n) =~= Seq::<Seq<char>>::empty(),
        lifetimes_of_segments(segments, n) =~= Seq::<Seq<char>>::empty(),
    decreases n,
{
    if n > 0 {
        lemma_segments_without_arguments(segments, n - 1);
        assert(!has_argument(segments[n - 1]));
        let arguments = segments[n - 1].arguments;
        match arguments {
            ArgumentsTree::AngleBracketed(list) => {
                assert(list.len() == 0);
                assert(candidates_of_argument_list(list, 0) =~= Seq::<Seq<char>>::empty());
                assert(lifetimes_of_argument_list(list, 0) =~= Seq::<Seq<char>>::empty());
            },
            _ => {},
        }
        assert(candidates_of_arguments(arguments) =~= Seq::<Seq<char>>::empty());
        assert(lifetimes_of_arguments(arguments) =~= Seq::<Seq<char>>::empty());
    }
}

/// A type without generic arguments mentions no type parameter, and no
/// lifetime unless one of its references is written with one.
proof fn lemma_without_arguments(ty: TypeTree)
    requires
        !mentions_generic_argument(ty),
    ensures
        candidates(ty, false) =~= Seq::<Seq<char>>::empty(),
        !annotates_reference(ty) ==> lifetimes_of(ty) =~= Seq::<Seq<char>>::empty(),
    decreases ty,
{
    match ty {
        TypeTree::Named(segments) => {
            lemma_segments_without_arguments(segments, segments.len() as int);
        },
        TypeTree::Reference(_, _, inner) => lemma_without_arguments(*inner),
        TypeTree::Pointer(inner) => lemma_without_arguments(*inner),
        TypeTree::Array(inner, _) => lemma_without_arguments(*inner),
        TypeTree::Slice(inner) => lemma_without_arguments(*inner),
        TypeTree::Tuple(elems) => lemma_types_without_arguments(elems, elems.len() as int),
        TypeTree::Grouped(inner) => lemma_without_arguments(*inner),
        TypeTree::Parenthesized(inner) => lemma_without_arguments(*inner),
        TypeTree::Opaque => {},
    }
}

/// What [`lemma_without_arguments`] says, of the first `n` of `types`.
proof fn lemma_types_without_arguments(types: Seq<TypeTree>, n: int)
    requires
        0 <= n <= types.len(),
        forall|i: int| 0 <= i < types.len() ==> !mentions_generic_argument(#[trigger] types[i]),
    ensures
        candidates_of_types(types, n, false) =~= Seq::<Seq<char>>::empty(),
        (forall|i: int| 0 <= i < types.len() ==> !annotates_reference(#[trigger] types[i]))
            ==> lifetimes_of_types(types, n) =~= Seq::<Seq<char>>::empty(),
    decreases types, n,
{
    if n > 0 {
        lemma_types_without_arguments(types, n - 1);
        assert(!mentions_generic_argument(types[n - 1]));
        lemma_without_arguments(types[n - 1]);
    }
}

/// A super type without generic arguments asks for no extra type parameter.
pub proof fn law_without_arguments_no_extra_types(
    ty: TypeTree,
    free: Seq<Seq<char>>,
    declared: Seq<Seq<char>>,
)
    requires
        !mentions_generic_argument(ty),
    ensures
        type_params_of(ty) == Seq::<Seq<char>>::empty(),
        extra_type_params(ty, free, declared) matches Ok(extra) ==> extra == Seq::<
            Seq<char>,
        >::empty(),
        declared.len() == 0 ==> extra_type_params(ty, free, declared) == Ok::<
            Seq<Seq<char>>,
            DeriveErrorView,
        >(Seq::empty()),
{
    lemma_without_arguments(ty);
}

/// A super type without generic arguments, none of whose references is
/// written with a lifetime, asks for no extra type parameter and for no
/// extra lifetime.
pub proof fn law_without_arguments_no_extras(
    ty: TypeTree,
    free: Seq<Seq<char>>,
    declared: Seq<GenericParamView>,
)
    requires
        !mentions_generic_argument(ty),
        !annotates_reference(ty),
    ensures
        lifetimes_of(ty) == Seq::<Seq<char>>::empty(),
        reconciled(ty, free, declared) matches Ok(extra) ==> extra.0 == Seq::<Seq<char>>::empty()
            && extra.1 == Seq::<Seq<char>>::empty(),
        type_names(declared).len() == 0 && lifetime_names(declared).len() == 0 ==> reconciled(
            ty,
            free,
            declared,
        ) == Ok::<(Seq<Seq<char>>, Seq<Seq<char>>), DeriveErrorView>((Seq::empty(), Seq::empty())),
{
    lemma_without_arguments(ty);
}

/// A text without markers is left as it is when its markers are taken out,
/// and marks nothing.
proof fn lemma_without_markers(text: Seq<char>)
    requires
        forall|i: int| 0 <= i < text.len() ==> !is_marker(#[trigger] text[i]),
    ensures
        strip_markers(text) == text,
        !has_bare_marker(text),
        free_params(text) == Seq::<Seq<char>>::empty(),
{
    lemma_keeps_unmarked(text);
    lemma_marks_nothing(text, text.len() as int);
}

/// Taking the markers out of a text without markers changes nothing.
proof fn lemma_keeps_unmarked(text: Seq<char>)
    requires
        forall|i: int| 0 <= i < text.len() ==> !is_marker(#[trigger] text[i]),
    ensures
        strip_markers(text) == text,
    decreases text.len(),
{
    reveal(Seq::filter);
    if text.len() > 0 {
        lemma_keeps_unmarked(text.drop_last());
        assert(!is_marker(text[text.len() - 1]));
        assert(text.drop_last().push(text.last()) =~= text);
    }
}

/// A text without markers marks nothing.
proof fn lemma_marks_nothing(text: Seq<char>, n: int)
    requires
        0 <= n <= text.len(),
        forall|i: int| 0 <= i < text.len() ==> !is_marker(#[trigger] text[i]),
    ensures
        marked_before(text, n) == Seq::<Seq<char>>::empty(),
    decreases n,
{
    if n > 0 {
        lemma_marks_nothing(text, n - 1);
        assert(!is_marker(text[n - 1]));
    }
}

/// What is left when the markers are taken out holds no marker.
proof fn lemma_stripped_has_no_marker(text: Seq<char>)
    ensures
        forall|i: int|
            0 <= i < strip_markers(text).len() ==> !is_marker(#[trigger] strip_markers(text)[i]),
{
    let keep = |c: char| !is_marker(c);
    assert forall|i: int| 0 <= i < strip_markers(text).len() implies !is_marker(
        #[trigger] strip_markers(text)[i],
    ) by {
        text.lemma_filter_pred(keep, i);
    }
}

/// Taking the markers out a second time changes nothing: the text without
/// its markers has no marker left, marks nothing, and is read as the same
/// type as the text with its markers.
pub proof fn law_markers_do_not_change_the_type(text: Seq<char>)
    requires
        !has_bare_marker(text),
    ensures
        strip_markers(strip_markers(text)) == strip_markers(text),
        !has_bare_marker(strip_markers(text)),
        free_params(strip_markers(text)) == Seq::<Seq<char>>::empty(),
        read_type(strip_markers(text)) == match read_type(text) {
            Ok(read) => Ok::<(TypeTree, Seq<Seq<char>>), DeriveErrorView>((read.0, Seq::empty())),
            Err(e) => Err::<(TypeTree, Seq<Seq<char>>), DeriveErrorView>(e),
        },
{
    lemma_stripped_has_no_marker(text);
    lemma_without_markers(strip_markers(text));
}

/// A marker at the end of the text, or before a character that is no ASCII
/// letter or digit, makes the text unreadable.
pub proof fn law_bare_marker_is_malformed(text: Seq<char>, at: int)
    requires
        0 <= at < text.len(),
        is_marker(text[at]),
        at + 1 == text.len() || !is_ident_char(text[at + 1]),
    ensures
        has_bare_marker(text),
        read_type(text) == Err::<(TypeTree, Seq<Seq<char>>), DeriveErrorView>(
            DeriveErrorView::MalformedFreeParameter,
        ),
{
}

/// Whether the lifetime `name` is written somewhere in `ty`: on a reference
/// or as a generic argument, however deep.
pub open spec fn mentions_lifetime(ty: TypeTree, name: Seq<char>) -> bool
    decreases ty,
{
    match ty {
        TypeTree::Named(segments) => exists|i: int|
            0 <= i < segments.len() && arguments_mention_lifetime(
                (#[trigger] segments[i]).arguments,
                name,
            ),
        TypeTree::Reference(_, lifetime, inner) => lifetime == Some(name) || mentions_lifetime(
            *inner,
            name,
        ),
        TypeTree::Pointer(inner) => mentions_lifetime(*inner, name),
        TypeTree::Array(inner, _) => mentions_lifetime(*inner, name),
        TypeTree::Slice(inner) => mentions_lifetime(*inner, name),
        TypeTree::Tuple(elems) => exists|i: int|
            0 <= i < elems.len() && mentions_lifetime(#[trigger] elems[i], name),
        TypeTree::Grouped(inner) => mentions_lifetime(*inner, name),
        TypeTree::Parenthesized(inner) => mentions_lifetime(*inner, name),
        TypeTree::Opaque => false,
    }
}

/// Whether the lifetime `name` is written somewhere in `arguments`.
pub open spec fn arguments_mention_lifetime(arguments: ArgumentsTree, name: Seq<char>) -> bool
    decreases arguments,
{
    match arguments {
        ArgumentsTree::AngleBracketed(list) => exists|j: int|
            0 <= j < list.len() && argument_mentions_lifetime(#[trigger] list[j], name),
        _ => false,
    }
}

/// Whether the lifetime `name` is written somewhere in `argument`.
pub open spec fn argument_mentions_lifetime(argument: ArgumentTree, name: Seq<char>) -> bool
    decreases argument,
{
    match argument {
        ArgumentTree::Lifetime(written) => written == name,
        ArgumentTree::Type(ty) => mentions_lifetime(ty, name),
    }
}

/// A member of one of two lists is a member of the two put together.
proof fn lemma_concat_contains(first: Seq<Seq<char>>, second: Seq<Seq<char>>, name: Seq<char>)
    requires
        first.contains(name) || second.contains(name),
    ensures
        (first + second).contains(name),
{
    if first.contains(name) {
        let k = choose|k: int| 0 <= k < first.len() && first[k] == name;
        assert((first + second)[k] == name);
    } else {
        let k = choose|k: int| 0 <= k < second.len() && second[k] == name;
        assert((first + second)[first.len() + k] == name);
    }
}

/// A lifetime that is written somewhere in a type is among those collected
/// from it.
proof fn lemma_mentioned_is_collected(ty: TypeTree, name: Seq<char>)
    requires
        mentions_lifetime(ty, name),
    ensures
        lifetimes_of(ty).contains(name),
    decreases ty,
{
    match ty {
        TypeTree::Named(segments) => {
            let i = choose|i: int|
                0 <= i < segments.len() && arguments_mention_lifetime(
                    (#[trigger] segments[i]).arguments,
                    name,
                );
            lemma_arguments_mentioned_is_collected(segments[i].arguments, name);
            lemma_segment_is_collected(segments, segments.len() as int, i, name);
        },
        TypeTree::Reference(_, lifetime, inner) => {
            if lifetime == Some(name) {
                assert(seq![name][0] == name);
                lemma_concat_contains(seq![name], lifetimes_of(*inner), name);
            } else {
                lemma_mentioned_is_collected(*inner, name);
                if lifetime is Some {
                    lemma_concat_contains(seq![lifetime->0], lifetimes_of(*inner), name);
                }
            }
        },
        TypeTree::Pointer(inner) => lemma_mentioned_is_collected(*inner, name),
        TypeTree::Array(inner, _) => lemma_mentioned_is_collected(*inner, name),
        TypeTree::Slice(inner) => lemma_mentioned_is_collected(*inner, name),
        TypeTree::Tuple(elems) => {
            let i = choose|i: int|
                0 <= i < elems.len() && mentions_lifetime(#[trigger] elems[i], name);
            lemma_mentioned_is_collected(elems[i], name);
            lemma_type_is_collected(elems, elems.len() as int, i, name);
        },
        TypeTree::Grouped(inner) => lemma_mentioned_is_collected(*inner, name),
        TypeTree::Parenthesized(inner) => lemma_mentioned_is_collected(*inner, name),
        TypeTree::Opaque => {},
    }
}

/// What [`lemma_mentioned_is_collected`] says, of the arguments of one path
/// segment.
proof fn lemma_arguments_mentioned_is_collected(arguments: ArgumentsTree, name: Seq<char>)
    requires
        arguments_mention_lifetime(arguments, name),
    ensures
        lifetimes_of_arguments(arguments).contains(name),
    decreases arguments,
{
    match arguments {
        ArgumentsTree::AngleBracketed(list) => {
            let j = choose|j: int|
                0 <= j < list.len() && argument_mentions_lifetime(#[trigger] list[j], name);
            match list[j] {
                ArgumentTree::Lifetime(written) => {
                    assert(seq![written][0] == name);
                },
                ArgumentTree::Type(ty) => lemma_mentioned_is_collected(ty, name),
            }
            lemma_argument_is_collected(list, list.len() as int, j, name);
        },
        _ => {},
    }
}

/// What the segment at `i` gives is among what the first `n` segments give.
proof fn lemma_segment_is_collected(segments: Seq<SegmentTree>, n: int, i: int, name: Seq<char>)
    requires
        0 <= i < n <= segments.len(),
        lifetimes_of_arguments(segments[i].arguments).contains(name),
    ensures
        lifetimes_of_segments(segments, n).contains(name),
    decreases n,
{
    if i < n - 1 {
        lemma_segment_is_collected(segments, n - 1, i, name);
    }
    lemma_concat_contains(
        lifetimes_of_segments(segments, n - 1),
        lifetimes_of_arguments(segments[n - 1].arguments),
        name,
    );
}

/// What the argument at `j` gives is among what the first `n` arguments
/// give.
proof fn lemma_argument_is_collected(list: Seq<ArgumentTree>, n: int, j: int, name: Seq<char>)
    requires
        0 <= j < n <= list.len(),
        lifetimes_of_argument(list[j]).contains(name),
    ensures
        lifetimes_of_argument_list(list, n).contains(name),
    decreases n,
{
    if j < n - 1 {
        lemma_argument_is_collected(list, n - 1, j, name);
    }
    lemma_concat_contains(
        lifetimes_of_argument_list(list, n - 1),
        lifetimes_of_argument(list[n - 1]),
        name,
    );
}

/// What the type at `i` gives is among what the first `n` types give.
proof fn lemma_type_is_collected(types: Seq<TypeTree>, n: int, i: int, name: Seq<char>)
    requires
        0 <= i < n <= types.len(),
        lifetimes_of(types[i]).contains(name),
    ensures
        lifetimes_of_types(types, n).contains(name),
    decreases n,
{
    if i < n - 1 {
        lemma_type_is_collected(types, n - 1, i, name);
    }
    lemma_concat_contains(lifetimes_of_types(types, n - 1), lifetimes_of(types[n - 1]), name);
}

/// The anonymous lifetime is refused wherever in the super type it is
/// written, whatever else is written there and whatever the sub struct
/// declares.
pub proof fn law_anonymous_lifetime_is_refused(
    ty: TypeTree,
    free: Seq<Seq<char>>,
    declared: Seq<GenericParamView>,
)
    requires
        mentions_lifetime(ty, anonymous_lifetime()),
    ensures
        extra_lifetimes(ty, lifetime_names(declared)) == Err::<Seq<Seq<char>>, DeriveErrorView>(
            DeriveErrorView::AnonymousLifetimeUnsupported,
        ),
        reconciled(ty, free, declared) == Err::<(Seq<Seq<char>>, Seq<Seq<char>>), DeriveErrorView>(
            DeriveErrorView::AnonymousLifetimeUnsupported,
        ),
{
    lemma_mentioned_is_collected(ty, anonymous_lifetime());
}

/// `'static` is never among the extra lifetimes, and no extra lifetime is
/// declared already or stands twice.
pub proof fn law_extra_lifetimes(ty: TypeTree, declared: Seq<Seq<char>>)
    ensures
        extra_lifetimes(ty, declared) matches Ok(extra) ==> {
            &&& !extra.contains(static_lifetime())
            &&& !extra.contains(anonymous_lifetime())
            &&& extra.no_duplicates()
            &&& forall|name: Seq<char>| #[trigger]
                extra.contains(name) <==> lifetimes_of(ty).contains(name) && name
                    != static_lifetime() && !declared.contains(name)
        },
{
    let named = named_lifetimes(ty);
    lemma_missing(lifetimes_of(ty), seq![static_lifetime()]);
    lemma_missing(named, declared);
    assert(seq![static_lifetime()][0] == static_lifetime());
    assert forall|name: Seq<char>| seq![static_lifetime()].contains(name) <==> name
        == static_lifetime() by {
        if seq![static_lifetime()].contains(name) {
            let k = choose|k: int|
                0 <= k < seq![static_lifetime()].len() && seq![static_lifetime()][k] == name;
        }
    }
}

/// A declared type parameter that the super type does not mention, marked or
/// not, is reported. Where it is the only such parameter, it is the one
/// named.
pub proof fn law_unknown_type_parameter(
    ty: TypeTree,
    free: Seq<Seq<char>>,
    declared: Seq<Seq<char>>,
    name: Seq<char>,
)
    requires
        declared.contains(name),
        !type_params_of(ty).contains(name),
    ensures
        extra_type_params(ty, free, declared) matches Err(
            DeriveErrorView::UnknownTypeParameter(reported, mentioned),
        ) && declared.contains(reported) && !type_params_of(ty).contains(reported) && mentioned
            == first_occurrences(type_params_of(ty)),
        (forall|other: Seq<char>|
            declared.contains(other) && other != name ==> type_params_of(ty).contains(other))
            ==> extra_type_params(ty, free, declared) == Err::<Seq<Seq<char>>, DeriveErrorView>(
            DeriveErrorView::UnknownTypeParameter(name, first_occurrences(type_params_of(ty))),
        ),
{
    let mentioned = first_occurrences(type_params_of(ty));
    let unknown = missing(declared, mentioned);
    lemma_missing(type_params_of(ty), seq![]);
    lemma_missing(declared, mentioned);
    assert(unknown.contains(name));
    assert(unknown.contains(unknown[0]));
}

/// What [`law_unknown_type_parameter`] says, of the reconciliation as a
/// whole: it holds unless the super type mentions the anonymous lifetime,
/// which is reported first.
pub proof fn law_unknown_type_parameter_reconciled(
    ty: TypeTree,
    free: Seq<Seq<char>>,
    declared: Seq<GenericParamView>,
    name: Seq<char>,
)
    requires
        type_names(declared).contains(name),
        !type_params_of(ty).contains(name),
        !lifetimes_of(ty).contains(anonymous_lifetime()),
    ensures
        reconciled(ty, free, declared) matches Err(
            DeriveErrorView::UnknownTypeParameter(reported, _),
        ) && type_names(declared).contains(reported) && !type_params_of(ty).contains(reported),
{
    law_unknown_type_parameter(ty, free, type_names(declared), name);
}

/// No extra type parameter is declared already or stands twice, and each is
/// mentioned by the super type. Where the super type marks free parameters,
/// each extra type parameter is marked.
pub proof fn law_extra_type_params(ty: TypeTree, free: Seq<Seq<char>>, declared: Seq<Seq<char>>)
    ensures
        extra_type_params(ty, free, declared) matches Ok(extra) ==> {
            &&& extra.no_duplicates()
            &&& forall|name: Seq<char>| #[trigger]
                extra.contains(name) <==> type_params_of(ty).contains(name) && !declared.contains(
                    name,
                ) && (free.len() == 0 || free.contains(name))
        },
{
    let mentioned = first_occurrences(type_params_of(ty));
    lemma_missing(type_params_of(ty), seq![]);
    lemma_missing(mentioned, declared);
    lemma_only(mentioned, free);
    lemma_missing(only(mentioned, free), declared);
    if free.len() > 0 {
        assert(forall|name: Seq<char>| #[trigger]
            only(mentioned, free).contains(name) <==> mentioned.contains(name) && free.contains(
                name,
            ));
    }
}

/// The composed parameter list begins with the declared parameters, as they
/// are. The identifiers of each kind are the declared ones and then the
/// extra ones that are not declared, each once. If no identifier stands
/// twice within a kind of the declared parameters, none does in the composed
/// list.
pub proof fn law_composed(
    params: Seq<GenericParamView>,
    extra_types: Seq<Seq<char>>,
    extra_lifetimes: Seq<Seq<char>>,
    order: AppendOrder,
)
    ensures
        composed(params, extra_types, extra_lifetimes, order).len() >= params.len(),
        composed(params, extra_types, extra_lifetimes, order).subrange(0, params.len() as int)
            == params,
        type_names(composed(params, extra_types, extra_lifetimes, order)) == type_names(params)
            + missing(extra_types, type_names(params)),
        lifetime_names(composed(params, extra_types, extra_lifetimes, order)) == lifetime_names(
            params,
        ) + missing(extra_lifetimes, lifetime_names(params)),
        distinct_within_kind(params) ==> distinct_within_kind(
            composed(params, extra_types, extra_lifetimes, order),
        ),
{
    let types = missing(extra_types, type_names(params));
    let lifetimes = missing(extra_lifetimes, lifetime_names(params));
    let all = composed(params, extra_types, extra_lifetimes, order);
    lemma_missing(extra_types, type_names(params));
    lemma_missing(extra_lifetimes, lifetime_names(params));
    match order {
        AppendOrder::TypesFirst => {
            lemma_names_with_types(params, types);
            lemma_names_with_lifetimes(params + as_types(types), lifetimes);
        },
        AppendOrder::LifetimesFirst => {
            lemma_names_with_lifetimes(params, lifetimes);
            lemma_names_with_types(params + as_lifetimes(lifetimes), types);
        },
    }
    assert(all.subrange(0, params.len() as int) =~= params);
    if distinct_within_kind(params) {
        lemma_distinct_concat(type_names(params), types);
        lemma_distinct_concat(lifetime_names(params), lifetimes);
    }
}

/// Every extra parameter that a reconciliation finds is appended to the
/// declared ones: none of them is declared already, and none stands twice.
pub proof fn law_extras_are_appended(
    ty: TypeTree,
    free: Seq<Seq<char>>,
    declared: Seq<GenericParamView>,
    order: AppendOrder,
)
    ensures
        reconciled(ty, free, declared) matches Ok(extra) ==> composed(
            declared,
            extra.0,
            extra.1,
            order,
        ) == match order {
            AppendOrder::TypesFirst => declared + as_types(extra.0) + as_lifetimes(extra.1),
            AppendOrder::LifetimesFirst => declared + as_lifetimes(extra.1) + as_types(extra.0),
        },
{
    if let Ok(extra) = reconciled(ty, free, declared) {
        law_extra_type_params(ty, free, type_names(declared));
        law_extra_lifetimes(ty, lifetime_names(declared));
        lemma_missing_keeps(extra.0, type_names(declared));
        lemma_missing_keeps(extra.1, lifetime_names(declared));
    }
}

/// The identifier after a marker is the longest run of ASCII letters and
/// digits that starts there: it lies within the text, holds nothing else, and
/// ends at the end of the text or before another character.
pub proof fn law_identifier_run_is_longest(text: Seq<char>, from: int)
    requires
        0 <= from <= text.len(),
    ensures
        from <= run_end(text, from) <= text.len(),
        forall|k: int| from <= k < run_end(text, from) ==> is_ident_char(#[trigger] text[k]),
        run_end(text, from) < text.len() ==> !is_ident_char(text[run_end(text, from)]),
    decreases text.len() - from,
{
    if from < text.len() && is_ident_char(text[from]) {
        law_identifier_run_is_longest(text, from + 1);
    }
}

/// Whether `name` is an identifier as a marker can have it after it: one
/// ASCII letter or digit at least, and nothing else.
pub open spec fn is_marked_identifier(name: Seq<char>) -> bool {
    name.len() > 0 && forall|k: int| 0 <= k < name.len() ==> is_ident_char(#[trigger] name[k])
}

/// What [`law_free_params_are_identifiers`] says, of the markers among the
/// first `n` characters.
proof fn lemma_marked_are_identifiers(text: Seq<char>, n: int)
    requires
        0 <= n <= text.len(),
        !has_bare_marker(text),
    ensures
        forall|k: int|
            0 <= k < marked_before(text, n).len() ==> is_marked_identifier(
                #[trigger] marked_before(text, n)[k],
            ),
    decreases n,
{
    if n > 0 {
        lemma_marked_are_identifiers(text, n - 1);
        if is_marker(text[n - 1]) {
            law_identifier_run_is_longest(text, n);
            assert(n < text.len() && is_ident_char(text[n]));
            assert(run_end(text, n) > n);
            let run = text.subrange(n, run_end(text, n));
            assert forall|k: int| 0 <= k < run.len() implies is_ident_char(#[trigger] run[k]) by {
                assert(run[k] == text[n + k]);
            }
            assert(is_marked_identifier(run));
            let before = marked_before(text, n - 1);
            let found = marked_before(text, n);
            assert(found == before.push(run));
            assert forall|k: int| 0 <= k < found.len() implies is_marked_identifier(
                #[trigger] found[k],
            ) by {
                if k < before.len() {
                    assert(found[k] == before[k]);
                }
            }
        }
    }
}

/// In a text that is not malformed every marker has an identifier after it:
/// each free parameter holds one ASCII letter or digit at least, and nothing
/// else.
pub proof fn law_free_params_are_identifiers(text: Seq<char>)
    requires
        !has_bare_marker(text),
    ensures
        forall|k: int|
            0 <= k < free_params(text).len() ==> is_marked_identifier(
                #[trigger] free_params(text)[k],
            ),
{
    lemma_marked_are_identifiers(text, text.len() as int);
}

/// Whether `second` is first seen in `names` after `first` has been seen.
pub open spec fn seen_before(names: Seq<Seq<char>>, first: Seq<char>, second: Seq<char>) -> bool {
    exists|a: int, b: int|
        #![trigger names[a], names[b]]
        0 <= a < b < names.len() && names[a] == first && names[b] == second && forall|c: int|
            0 <= c < b ==> names[c] != second
}

/// [`missing`] keeps the names in the order in which they are first seen: of
/// two names that it keeps, the one kept later is first seen in the list
/// after the other has been seen.
pub proof fn law_first_seen_order(names: Seq<Seq<char>>, present: Seq<Seq<char>>)
    ensures
        forall|i: int, j: int|
            #![trigger missing(names, present)[i], missing(names, present)[j]]
            0 <= i < j < missing(names, present).len() ==> seen_before(
                names,
                missing(names, present)[i],
                missing(names, present)[j],
            ),
    decreases names.len(),
{
    let found = missing(names, present);
    if names.len() > 0 {
        let init = names.drop_last();
        let before = missing(init, present);
        law_first_seen_order(init, present);
        lemma_missing(init, present);
        assert forall|i: int, j: int|
            #![trigger found[i], found[j]]
            0 <= i < j < found.len() implies seen_before(names, found[i], found[j]) by {
            if j < before.len() {
                assert(before[i] == found[i] && before[j] == found[j]);
                assert(seen_before(init, before[i], before[j]));
                let (a, b) = choose|a: int, b: int|
                    #![trigger init[a], init[b]]
                    0 <= a < b < init.len() && init[a] == before[i] && init[b] == before[j]
                        && forall|c: int| 0 <= c < b ==> init[c] != before[j];
                assert(names[a] == found[i] && names[b] == found[j]);
                assert forall|c: int| 0 <= c < b implies names[c] != found[j] by {
                    assert(init[c] == names[c]);
                }
            } else {
                let b = names.len() - 1;
                assert(found[j] == names[b]);
                assert(before.contains(before[i]));
                assert(init.contains(found[i]));
                let a = choose|a: int| 0 <= a < init.len() && init[a] == found[i];
                assert(names[a] == found[i]);
                assert forall|c: int| 0 <= c < b implies names[c] != found[j] by {
                    if names[c] == found[j] {
                        assert(init[c] == found[j]);
                        assert(init.contains(found[j]));
                    }
                }
            }
        }
    }
}

} // verus!
