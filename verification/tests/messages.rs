//! Messages, and the check of a conversion that unpacks.

use fromsuper::error::{push_listed, DeriveError};
use fromsuper::generics::{AppendOrder, GenericParam, Generics};
use fromsuper::plan::{ConversionPlan, FieldPlan, FieldReceiver, StructReceiver};
use fromsuper::text::keep_alphanumerics;
use fromsuper::from_type::TypeWithParams;
use fromsuper::unpack::MissingFields;

fn names(list: &[&str]) -> Vec<String> {
    list.iter().map(|name| name.to_string()).collect()
}

fn receiver(unpack: Option<bool>, make_refs: Option<bool>) -> StructReceiver {
    StructReceiver {
        ident: "Foo".to_string(),
        generics: Generics::from_params(vec![GenericParam::Lifetime("a".to_string())]).unwrap(),
        fields: vec![
            FieldReceiver { ident: "a".to_string(), no_unpack: None, rename_from: None },
            FieldReceiver {
                ident: "b".to_string(),
                no_unpack: Some(true),
                rename_from: Some("other".to_string()),
            },
            FieldReceiver { ident: "c".to_string(), no_unpack: Some(false), rename_from: None },
        ],
        from_type: TypeWithParams::from_string("&'a Bar<#T>").unwrap(),
        unpack,
        make_refs,
    }
}

fn derived(unpack: Option<bool>, make_refs: Option<bool>) -> ConversionPlan {
    receiver(unpack, make_refs).plan(AppendOrder::LifetimesFirst).unwrap()
}

fn takes(target: &str, source: &str, unwrap: bool) -> FieldPlan {
    FieldPlan { target: target.to_string(), source: source.to_string(), unwrap }
}

#[test]
fn message_of_a_malformed_marker() {
    assert_eq!(
        DeriveError::MalformedFreeParameter.message(),
        "hash mark without following type parameter name"
    );
}

#[test]
fn message_of_an_unparsable_type() {
    assert_eq!(
        TypeWithParams::from_string("Bar<#T").unwrap_err().message(),
        "Unknown literal value `Bar<T`"
    );
}

#[test]
fn message_of_an_unknown_type_parameter() {
    assert_eq!(
        DeriveError::UnknownTypeParameter("U".to_string(), names(&[])).message(),
        "Type parameter 'U' is unknown from super type, which uses none"
    );
    assert_eq!(
        DeriveError::UnknownTypeParameter("U".to_string(), names(&["T"])).message(),
        "Type parameter 'U' is unknown from super type, which only uses the following: T"
    );
    assert_eq!(
        DeriveError::UnknownTypeParameter("U".to_string(), names(&["T", "V", "W"])).message(),
        "Type parameter 'U' is unknown from super type, which only uses the following: T, V, W"
    );
}

#[test]
fn message_of_an_unknown_lifetime() {
    assert_eq!(
        DeriveError::UnknownLifetimeParameter("b".to_string(), names(&[])).message(),
        "Lifetime parameter ''b' is unknown from super type, which uses none"
    );
    assert_eq!(
        DeriveError::UnknownLifetimeParameter("b".to_string(), names(&["a", "c"])).message(),
        "Lifetime parameter ''b' is unknown from super type, which only uses the following: 'a, 'c"
    );
}

#[test]
fn message_of_the_anonymous_lifetime() {
    assert_eq!(
        DeriveError::AnonymousLifetimeUnsupported.message(),
        "The anonymous lifetime '_ is not supported."
    );
}

#[test]
fn names_are_listed_with_their_sigil() {
    let mut text = "x: ".to_string();
    push_listed(&names(&["a", "b", "c"]), "'", &mut text);
    assert_eq!(text, "x: 'a, 'b, 'c");
    let mut text = String::new();
    push_listed(&names(&[]), "'", &mut text);
    assert_eq!(text, "");
}

#[test]
fn only_letters_and_numbers_are_kept() {
    assert_eq!(keep_alphanumerics("Bar < 'a , T , u8 >"), "BaraTu8");
    assert_eq!(keep_alphanumerics("& 'a [Größe_1; ٣]"), "aGröße1٣");
    assert_eq!(keep_alphanumerics(":: < > , _"), "");
}

#[test]
fn conversion_is_direct_unless_it_unpacks() {
    for unpack in [None, Some(false)] {
        let plan = derived(unpack, None);
        assert_eq!(plan.error_type, None);
        assert_eq!(
            plan.fields,
            vec![takes("a", "a", false), takes("b", "other", false), takes("c", "c", false)]
        );
        assert_eq!(plan.check(&vec![false, false, false]), Ok(()));
        assert_eq!(plan.check(&vec![]), Ok(()));
    }
}

#[test]
fn conversion_that_unpacks_names_its_error_and_its_fields() {
    let plan = derived(Some(true), None);
    assert_eq!(plan.ident, "Foo");
    assert_eq!(plan.error_type, Some("FooFromSuperError_aBarT".to_string()));
    assert_eq!(
        plan.fields,
        vec![takes("a", "a", true), takes("b", "other", false), takes("c", "c", true)]
    );
    assert_eq!(plan.extra_types, names(&["T"]));
    assert_eq!(plan.extra_lifetimes, names(&[]));
    assert_eq!(
        plan.generics,
        Generics::from_params(vec![
            GenericParam::Lifetime("a".to_string()),
            GenericParam::Type("T".to_string()),
        ])
        .unwrap()
    );
    assert_eq!(plan.from_type, receiver(None, None).from_type.tokens);
}

#[test]
fn references_are_made_where_asked_for() {
    assert!(!derived(None, None).by_reference);
    assert!(!derived(Some(true), Some(false)).by_reference);
    assert!(derived(None, Some(true)).by_reference);
    assert!(derived(Some(true), Some(true)).by_reference);
}

#[test]
fn plan_is_refused_where_reconciliation_fails() {
    let mut asked = receiver(Some(true), None);
    asked.from_type = TypeWithParams::from_string("&'_ Bar").unwrap();
    assert_eq!(
        asked.plan(AppendOrder::TypesFirst),
        Err(DeriveError::AnonymousLifetimeUnsupported)
    );
    asked.from_type = TypeWithParams::from_string("&'b Bar").unwrap();
    assert_eq!(
        asked.plan(AppendOrder::TypesFirst),
        Err(DeriveError::UnknownLifetimeParameter("a".to_string(), names(&["b"])))
    );
}

#[test]
fn unpacked_fields_without_a_value_are_missing() {
    let plan = derived(Some(true), None);
    assert_eq!(plan.check(&vec![true, true, true]), Ok(()));
    assert_eq!(plan.check(&vec![true, false, true]), Ok(()));
    let missing = plan.check(&vec![false, false, true]).unwrap_err();
    assert_eq!(missing.missing, names(&["a"]));
    assert_eq!(missing.from_type, plan.from_type);
    let missing = plan.check(&vec![false, true, false]).unwrap_err();
    assert_eq!(missing.missing, names(&["a", "c"]));
    let missing = plan.check(&vec![true]).unwrap_err();
    assert_eq!(missing.missing, names(&["c"]));
    let missing = plan.check(&vec![]).unwrap_err();
    assert_eq!(missing.missing, names(&["a", "c"]));
    assert_eq!(plan.check(&vec![true, false, true, false, false]), Ok(()));
}

#[test]
fn missing_fields_are_gathered_and_named() {
    let mut missing = MissingFields::new("Bar < T >");
    assert!(!missing.any_missing());
    assert_eq!(missing.message(), "Attribute(s)  of the super struct Bar < T > not initialized");
    missing.push("x");
    assert!(missing.any_missing());
    assert_eq!(missing.message(), "Attribute(s) x of the super struct Bar < T > not initialized");
    missing.push("y");
    missing.push("z");
    assert_eq!(missing.missing, names(&["x", "y", "z"]));
    assert_eq!(
        missing.message(),
        "Attribute(s) x, y, z of the super struct Bar < T > not initialized"
    );
}
