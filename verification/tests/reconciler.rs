//! Collecting lifetimes and type parameters, and reconciling them with what
//! the sub struct declares.

use fromsuper::error::DeriveError;
use fromsuper::generics::{
    add_lifetimes, add_types, compose, copy_param, AppendOrder, GenericParam, Generics,
};
use fromsuper::lifetimes::{collect_all_lifetimes, collect_extra_lifetimes};
use fromsuper::names::{contains_name, missing_names, only_names};
use fromsuper::reconcile::reconcile;
use fromsuper::type_expr::{Argument, Arguments, Segment, TypeExpr};
use fromsuper::type_params::{collect_all_type_params, collect_extra_type_params};
use fromsuper::from_type::TypeWithParams;

fn names(list: &[&str]) -> Vec<String> {
    list.iter().map(|name| name.to_string()).collect()
}

fn lifetime(name: &str) -> GenericParam {
    GenericParam::Lifetime(name.to_string())
}

fn type_param(name: &str) -> GenericParam {
    GenericParam::Type(name.to_string())
}

fn const_param(name: &str) -> GenericParam {
    GenericParam::Const(name.to_string())
}

fn generics(params: Vec<GenericParam>) -> Generics {
    Generics::from_params(params).unwrap()
}

fn read(text: &str) -> TypeWithParams {
    TypeWithParams::from_string(text).unwrap()
}

fn lifetimes_in(text: &str) -> Vec<String> {
    collect_all_lifetimes(&read(text).ty)
}

fn type_params_in(text: &str) -> Vec<String> {
    collect_all_type_params(&read(text).ty)
}

fn extra_types(text: &str, declared: Vec<GenericParam>) -> Result<Vec<String>, DeriveError> {
    let from_type = read(text);
    collect_extra_type_params(&from_type.ty, &from_type.params, &generics(declared))
}

fn extra_lifetimes(text: &str, declared: Vec<GenericParam>) -> Result<Vec<String>, DeriveError> {
    collect_extra_lifetimes(&read(text).ty, &generics(declared))
}

fn extras(
    text: &str,
    declared: Vec<GenericParam>,
) -> Result<(Vec<String>, Vec<String>), DeriveError> {
    reconcile(&read(text), &generics(declared), AppendOrder::TypesFirst)
        .map(|done| (done.extra_types, done.extra_lifetimes))
}

#[test]
fn lifetimes_are_collected_in_the_order_written() {
    assert_eq!(lifetimes_in("Bar"), names(&[]));
    assert_eq!(lifetimes_in("Bar<'a>"), names(&["a"]));
    assert_eq!(lifetimes_in("Bar<'b, T, 'a>"), names(&["b", "a"]));
    assert_eq!(lifetimes_in("a::B<'x>::C<'y>"), names(&["x", "y"]));
}

#[test]
fn lifetimes_of_references_are_collected() {
    assert_eq!(lifetimes_in("&'a Bar"), names(&["a"]));
    assert_eq!(lifetimes_in("&'a mut Bar<'b>"), names(&["a", "b"]));
    assert_eq!(lifetimes_in("&Bar<'b>"), names(&["b"]));
    assert_eq!(lifetimes_in("Bar<&'a T, &'b U>"), names(&["a", "b"]));
}

#[test]
fn lifetimes_are_collected_at_any_depth() {
    assert_eq!(
        lifetimes_in("A<'a, B<'b, (C<'c>, &'d [D<'e>; 2])>, *const [E<'f>]>"),
        names(&["a", "b", "c", "d", "e", "f"])
    );
    assert_eq!(lifetimes_in("(A<'a>, (B<'b>,), (&'c C))"), names(&["a", "b", "c"]));
}

#[test]
fn lifetimes_written_twice_are_collected_twice() {
    assert_eq!(lifetimes_in("Bar<'a, &'a T, 'static, 'a>"), names(&["a", "a", "static", "a"]));
}

#[test]
fn lifetimes_inside_what_is_opaque_are_not_seen() {
    assert_eq!(lifetimes_in("Bar<dyn Tr<'a>, fn(&'b T), Item = &'c U>"), names(&[]));
    assert_eq!(lifetimes_in("Fn(&'a T) -> U"), names(&[]));
}

#[test]
fn lifetimes_of_a_tree_written_by_hand_are_collected() {
    let tree = TypeExpr::Tuple(vec![
        TypeExpr::Reference(
            false,
            Some("a".to_string()),
            Box::new(TypeExpr::Slice(Box::new(TypeExpr::Grouped(Box::new(TypeExpr::Opaque))))),
        ),
        TypeExpr::Named(vec![
            Segment { ident: "x".to_string(), arguments: Arguments::Parenthesized },
            Segment {
                ident: "Y".to_string(),
                arguments: Arguments::AngleBracketed(vec![
                    Argument::Lifetime("b".to_string()),
                    Argument::Type(TypeExpr::Pointer(Box::new(TypeExpr::Reference(
                        true,
                        Some("c".to_string()),
                        Box::new(TypeExpr::Named(vec![])),
                    )))),
                ]),
            },
        ]),
    ]);
    assert_eq!(collect_all_lifetimes(&tree), names(&["a", "b", "c"]));
    assert_eq!(collect_all_type_params(&tree), names(&[]));
}

#[test]
fn type_parameter_of_a_container_is_collected_not_the_container() {
    assert_eq!(type_params_in("Vec<T>"), names(&["T"]));
    assert_eq!(type_params_in("Bar<Vec<T>>"), names(&["T"]));
    assert_eq!(type_params_in("Bar<Vec<Option<T>>, HashMap<K, V>>"), names(&["T", "K", "V"]));
}

#[test]
fn type_parameters_are_collected_in_the_order_written() {
    assert_eq!(type_params_in("Bar"), names(&[]));
    assert_eq!(type_params_in("Bar<T, U>"), names(&["T", "U"]));
    assert_eq!(type_params_in("Bar<'a, U, 'b, T, U>"), names(&["U", "T", "U"]));
    assert_eq!(type_params_in("a::B<X>::C<Y>"), names(&["X", "Y"]));
}

#[test]
fn type_parameters_are_collected_through_what_wraps_a_type() {
    assert_eq!(type_params_in("&'a Bar<T>"), names(&["T"]));
    assert_eq!(type_params_in("Bar<&'a T, *const U, [V; 2], [W], (X, Y), (Z)>"),
        names(&["T", "U", "V", "W", "X", "Y", "Z"]));
    assert_eq!(type_params_in("(Bar<T>, [Baz<U>; 3])"), names(&["T", "U"]));
}

#[test]
fn last_identifier_of_a_path_is_the_one_collected() {
    assert_eq!(type_params_in("Bar<crate::Baz, std::string::String>"), names(&["Baz", "String"]));
}

#[test]
fn type_that_is_no_argument_gives_no_parameter() {
    assert_eq!(type_params_in("T"), names(&[]));
    assert_eq!(type_params_in("&T"), names(&[]));
    assert_eq!(type_params_in("(T, U)"), names(&[]));
}

#[test]
fn path_with_an_empty_argument_list_gives_nothing() {
    assert_eq!(type_params_in("Bar<Vec<>>"), names(&[]));
    assert_eq!(type_params_in("Bar<Fn(A) -> B>"), names(&["Fn"]));
    assert_eq!(type_params_in("Bar<dyn Tr<T>, 3, Item = U>"), names(&[]));
}

#[test]
fn no_generic_arguments_no_extras() {
    for text in ["Bar", "crate::Bar", "&Bar", "(A, B)", "[u8; 4]", "*const [Bar]", "Bar<>"] {
        assert_eq!(extras(text, vec![]), Ok((names(&[]), names(&[]))));
    }
}

#[test]
fn lifetime_of_a_reference_is_an_extra_though_no_argument() {
    assert_eq!(extras("&'a Bar", vec![]), Ok((names(&[]), names(&["a"]))));
    assert_eq!(extras("&'a Bar", vec![lifetime("a")]), Ok((names(&[]), names(&[]))));
}

#[test]
fn declared_type_parameter_that_is_not_mentioned_is_unknown() {
    assert_eq!(
        extra_types("Bar<#T>", vec![type_param("U")]),
        Err(DeriveError::UnknownTypeParameter("U".to_string(), names(&["T"])))
    );
    assert_eq!(
        extra_types("Bar<T>", vec![type_param("T"), type_param("U")]),
        Err(DeriveError::UnknownTypeParameter("U".to_string(), names(&["T"])))
    );
    assert_eq!(
        extra_types("Bar", vec![type_param("U")]),
        Err(DeriveError::UnknownTypeParameter("U".to_string(), names(&[])))
    );
    assert_eq!(
        extras("Bar<'a, T, T>", vec![type_param("U")]),
        Err(DeriveError::UnknownTypeParameter("U".to_string(), names(&["T"])))
    );
}

#[test]
fn first_unknown_type_parameter_is_the_one_named() {
    assert_eq!(
        extra_types("Bar<T, V, T>", vec![type_param("T"), type_param("X"), type_param("Y")]),
        Err(DeriveError::UnknownTypeParameter("X".to_string(), names(&["T", "V"])))
    );
}

#[test]
fn marked_parameter_that_is_not_declared_is_extra() {
    assert_eq!(extra_types("BarGenMulti<#T,#U>", vec![type_param("T")]), Ok(names(&["U"])));
}

#[test]
fn all_marked_parameters_are_extra_where_none_is_declared() {
    assert_eq!(
        extras("BarComplex<'a, #T, #U, #V, #W>", vec![lifetime("a")]),
        Ok((names(&["T", "U", "V", "W"]), names(&[])))
    );
}

#[test]
fn unmarked_identifier_beside_marked_ones_is_a_concrete_type() {
    assert_eq!(extra_types("Bar<#T, u32>", vec![]), Ok(names(&["T"])));
    assert_eq!(extra_types("Bar<#T, u32>", vec![type_param("T")]), Ok(names(&[])));
    assert_eq!(extra_types("Bar<T, #U>", vec![type_param("T")]), Ok(names(&["U"])));
    assert_eq!(
        extra_types("BarComplex<'a, #T, #U, char, ComplexSub>", vec![type_param("U")]),
        Ok(names(&["T"]))
    );
}

#[test]
fn every_identifier_is_a_parameter_where_none_is_marked() {
    assert_eq!(extra_types("Bar<T, U>", vec![type_param("T")]), Ok(names(&["U"])));
    assert_eq!(extra_types("Bar<T, Vec<U>, T, V>", vec![]), Ok(names(&["T", "U", "V"])));
}

#[test]
fn marked_identifier_that_is_not_collected_is_no_extra() {
    assert_eq!(extra_types("#T", vec![]), Ok(names(&[])));
    assert_eq!(extra_types("Bar<fn(#T), #U>", vec![]), Ok(names(&["U"])));
}

#[test]
fn extra_type_parameters_stand_once() {
    assert_eq!(extra_types("Bar<#T, Vec<#T>, #U, #T>", vec![]), Ok(names(&["T", "U"])));
    assert_eq!(extra_types("Bar<#T, Vec<T>, U>", vec![]), Ok(names(&["T"])));
}

#[test]
fn lifetime_and_type_of_one_identifier_do_not_meet() {
    assert_eq!(
        extras("Bar<'a, #a>", vec![lifetime("a")]),
        Ok((names(&["a"]), names(&[])))
    );
    assert_eq!(
        extras("Bar<'T, #T>", vec![type_param("T")]),
        Ok((names(&[]), names(&["T"])))
    );
}

#[test]
fn anonymous_lifetime_is_refused_wherever_it_stands() {
    for text in [
        "Bar<'_>",
        "&'_ Bar",
        "Bar<'a, Vec<&'_ T>>",
        "(A, &'_ B)",
        "Bar<'static, [Baz<'_>; 3]>",
        "*const Bar<'_>",
    ] {
        assert_eq!(extra_lifetimes(text, vec![]), Err(DeriveError::AnonymousLifetimeUnsupported));
        assert_eq!(
            extras(text, vec![lifetime("a"), type_param("X")]),
            Err(DeriveError::AnonymousLifetimeUnsupported)
        );
    }
}

#[test]
fn static_lifetime_is_never_extra() {
    assert_eq!(extra_lifetimes("BarLifetime1<'static>", vec![]), Ok(names(&[])));
    assert_eq!(extra_lifetimes("&'static Bar<'static, 'a>", vec![]), Ok(names(&["a"])));
    assert_eq!(
        extra_lifetimes("Bar<'a, 'static>", vec![lifetime("static")]),
        Err(DeriveError::UnknownLifetimeParameter("static".to_string(), names(&["a"])))
    );
}

#[test]
fn declared_lifetime_is_not_extra() {
    assert_eq!(extra_lifetimes("BarLifetime1<'a>", vec![lifetime("a")]), Ok(names(&[])));
    assert_eq!(extra_lifetimes("Bar<'a, 'b, 'c>", vec![lifetime("b")]), Ok(names(&["a", "c"])));
}

#[test]
fn extra_lifetimes_stand_once_in_first_seen_order() {
    assert_eq!(
        extra_lifetimes("Bar<'b, &'a T, 'b, 'static, 'a, 'c>", vec![]),
        Ok(names(&["b", "a", "c"]))
    );
}

#[test]
fn declared_lifetime_that_is_not_mentioned_is_unknown() {
    assert_eq!(
        extra_lifetimes("Bar<'a, 'a, 'static, 'c>", vec![lifetime("b")]),
        Err(DeriveError::UnknownLifetimeParameter("b".to_string(), names(&["a", "c"])))
    );
    assert_eq!(
        extra_lifetimes("Bar", vec![lifetime("a")]),
        Err(DeriveError::UnknownLifetimeParameter("a".to_string(), names(&[])))
    );
    assert_eq!(
        extra_lifetimes("Bar<'a>", vec![lifetime("a"), lifetime("x"), lifetime("y")]),
        Err(DeriveError::UnknownLifetimeParameter("x".to_string(), names(&["a"])))
    );
}

#[test]
fn type_parameters_are_checked_before_lifetimes() {
    assert_eq!(
        extras("Bar<'a, T>", vec![lifetime("b"), type_param("U")]),
        Err(DeriveError::UnknownTypeParameter("U".to_string(), names(&["T"])))
    );
    assert_eq!(
        extras("Bar<'a, T>", vec![lifetime("b"), type_param("T")]),
        Err(DeriveError::UnknownLifetimeParameter("b".to_string(), names(&["a"])))
    );
}

#[test]
fn const_parameters_are_declared_but_not_reconciled() {
    assert_eq!(
        extras("Bar<'a, #T, N>", vec![const_param("N")]),
        Ok((names(&["T"]), names(&["a"])))
    );
}

#[test]
fn reconciled_parameters_are_appended_in_the_order_asked_for() {
    let from_type = read("Bar<'a, #T, 'b, #U>");
    let declared = generics(vec![type_param("U"), const_param("N"), lifetime("b")]);
    let types_first = reconcile(&from_type, &declared, AppendOrder::TypesFirst).unwrap();
    assert_eq!(types_first.extra_types, names(&["T"]));
    assert_eq!(types_first.extra_lifetimes, names(&["a"]));
    assert_eq!(
        types_first.generics,
        generics(vec![
            type_param("U"),
            const_param("N"),
            lifetime("b"),
            type_param("T"),
            lifetime("a"),
        ])
    );
    let lifetimes_first = reconcile(&from_type, &declared, AppendOrder::LifetimesFirst).unwrap();
    assert_eq!(
        lifetimes_first.generics,
        generics(vec![
            type_param("U"),
            const_param("N"),
            lifetime("b"),
            lifetime("a"),
            type_param("T"),
        ])
    );
    assert_eq!(declared, generics(vec![type_param("U"), const_param("N"), lifetime("b")]));
}

#[test]
fn types_are_added_unless_declared() {
    let declared = generics(vec![lifetime("U"), type_param("T")]);
    assert_eq!(
        add_types(&declared, &names(&["T", "U", "V", "U"])),
        generics(vec![lifetime("U"), type_param("T"), type_param("U"), type_param("V")])
    );
    assert_eq!(add_types(&declared, &names(&[])), declared);
}

#[test]
fn lifetimes_are_added_unless_declared() {
    let declared = generics(vec![lifetime("a"), type_param("b")]);
    assert_eq!(
        add_lifetimes(&declared, &names(&["b", "a", "c", "b"])),
        generics(vec![lifetime("a"), type_param("b"), lifetime("b"), lifetime("c")])
    );
}

#[test]
fn composing_skips_what_is_declared() {
    let declared = generics(vec![lifetime("a"), type_param("T")]);
    assert_eq!(
        compose(&declared, &names(&["T", "U"]), &names(&["a", "b"]), AppendOrder::LifetimesFirst),
        generics(vec![lifetime("a"), type_param("T"), lifetime("b"), type_param("U")])
    );
}

#[test]
fn parameters_of_one_kind_have_distinct_identifiers() {
    assert_eq!(Generics::from_params(vec![type_param("T"), type_param("T")]), None);
    assert_eq!(Generics::from_params(vec![lifetime("a"), type_param("T"), lifetime("a")]), None);
    assert_eq!(Generics::from_params(vec![const_param("N"), const_param("N")]), None);
    assert!(Generics::from_params(vec![lifetime("a"), type_param("a"), const_param("a")]).is_some());
    assert_eq!(Generics::from_params(vec![]), Some(Generics::new()));
}

#[test]
fn declared_parameters_can_be_looked_at() {
    let declared = generics(vec![lifetime("a"), type_param("T"), const_param("N"), type_param("U")]);
    assert_eq!(declared.len(), 4);
    assert_eq!(declared.get(1), Some(&type_param("T")));
    assert_eq!(declared.get(4), None);
    assert_eq!(declared.lifetime_names(), names(&["a"]));
    assert_eq!(declared.type_names(), names(&["T", "U"]));
    assert_eq!(declared.const_names(), names(&["N"]));
    assert!(declared.declares(&type_param("U")));
    assert!(!declared.declares(&lifetime("U")));
    assert!(!declared.declares(&const_param("T")));
}

#[test]
fn names_are_looked_up_and_selected() {
    let list = names(&["a", "b", "a", "c", "b"]);
    assert!(contains_name(&list, &"c".to_string()));
    assert!(!contains_name(&list, &"d".to_string()));
    assert!(!contains_name(&names(&[]), &"a".to_string()));
    assert_eq!(missing_names(&list, &names(&["b"])), names(&["a", "c"]));
    assert_eq!(missing_names(&list, &names(&[])), names(&["a", "b", "c"]));
    assert_eq!(only_names(&list, &names(&["b", "c", "x"])), names(&["b", "c", "b"]));
}

#[test]
fn parameter_is_copied_with_its_kind() {
    for param in [lifetime("a"), type_param("T"), const_param("N")] {
        assert_eq!(copy_param(&param), param);
    }
    assert_ne!(copy_param(&lifetime("a")), type_param("a"));
}
