//! A derived conversion whose error is handed on as an `anyhow` error.

use fromsuper::generics::{AppendOrder, Generics};
use fromsuper::plan::{ConversionPlan, FieldReceiver, StructReceiver};
use fromsuper::from_type::TypeWithParams;
use fromsuper::unpack::MissingFields;

struct Bar {
    x: Option<Vec<u32>>,
}

struct Foo {
    #[allow(dead_code)]
    x: Vec<u32>,
}

#[allow(non_camel_case_types)]
#[derive(PartialEq, Debug)]
struct FooFromSuperError_Bar {
    missing: MissingFields,
}

impl std::fmt::Display for FooFromSuperError_Bar {
    fn fmt(&self, f: &mut std::fmt::Formatter<'_>) -> std::fmt::Result {
        f.write_str(&self.missing.message())
    }
}

impl std::error::Error for FooFromSuperError_Bar {}

fn foo_plan() -> ConversionPlan {
    let receiver = StructReceiver {
        ident: "Foo".to_string(),
        generics: Generics::new(),
        fields: vec![FieldReceiver { ident: "x".to_string(), no_unpack: None, rename_from: None }],
        from_type: TypeWithParams::from_string("Bar").unwrap(),
        unpack: Some(true),
        make_refs: None,
    };
    receiver.plan(AppendOrder::TypesFirst).unwrap()
}

impl TryFrom<Bar> for Foo {
    type Error = FooFromSuperError_Bar;

    fn try_from(value: Bar) -> Result<Self, FooFromSuperError_Bar> {
        match foo_plan().check(&vec![value.x.is_some()]) {
            Ok(()) => Ok(Foo { x: value.x.unwrap() }),
            Err(missing) => Err(FooFromSuperError_Bar { missing }),
        }
    }
}

fn anyhow_convert_inner_1() -> anyhow::Result<Foo> {
    let foo = Foo::try_from(Bar { x: Some(vec![42]) })?;
    Ok(foo)
}

fn anyhow_convert_inner_2() -> anyhow::Result<Foo> {
    let foo = Foo::try_from(Bar { x: None })?;
    Ok(foo)
}

#[test]
fn anyhow_convert() {
    assert!(anyhow_convert_inner_1().is_ok());
    assert!(anyhow_convert_inner_2().is_err());
}

#[test]
fn anyhow_error_names_the_missing_field() {
    assert_eq!(foo_plan().error_type, Some("FooFromSuperError_Bar".to_string()));
    let error = anyhow_convert_inner_2().err().unwrap();
    assert_eq!(
        error.to_string(),
        "Attribute(s) x of the super struct Bar not initialized"
    );
}
