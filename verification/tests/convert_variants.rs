//! Converting variant sets under the four encoding policies.

use ferrotype::{
    convert, ContainerAttrs, ConversionError, Field, FieldAttrs, Member, Primitive,
    SourceDescriptor, SourceKind, TypeDef, Variant, VariantShape,
};

fn member(name: &str, ty: TypeDef) -> Member {
    Member { name: name.to_string(), ty, attrs: FieldAttrs::default() }
}

fn unit(name: &str) -> Variant {
    Variant { name: name.to_string(), attrs: FieldAttrs::default(), shape: VariantShape::Unit }
}

fn newtype(name: &str, ty: TypeDef) -> Variant {
    Variant {
        name: name.to_string(),
        attrs: FieldAttrs::default(),
        shape: VariantShape::Tuple(vec![ty]),
    }
}

fn tuple(name: &str, tys: Vec<TypeDef>) -> Variant {
    Variant {
        name: name.to_string(),
        attrs: FieldAttrs::default(),
        shape: VariantShape::Tuple(tys),
    }
}

fn record(name: &str, fields: Vec<Member>) -> Variant {
    Variant {
        name: name.to_string(),
        attrs: FieldAttrs::default(),
        shape: VariantShape::Record(fields),
    }
}

fn desc(name: &str, variants: Vec<Variant>) -> SourceDescriptor {
    SourceDescriptor {
        name: name.to_string(),
        module: None,
        attrs: ContainerAttrs::default(),
        kind: SourceKind::VariantSet(variants),
    }
}

fn inner_def(td: TypeDef) -> TypeDef {
    match td {
        TypeDef::Named { def, .. } => *def,
        other => other,
    }
}

fn s() -> TypeDef {
    TypeDef::Primitive(Primitive::String)
}

fn n() -> TypeDef {
    TypeDef::Primitive(Primitive::Number)
}

fn b() -> TypeDef {
    TypeDef::Primitive(Primitive::Boolean)
}

#[test]
fn test_unit_variant_enum() {
    let d = desc(
        "SimpleStatus",
        vec![unit("Pending"), unit("Active"), unit("Completed")],
    );
    let td = convert(&d).unwrap();
    assert_eq!(
        inner_def(td.clone()).render(),
        r#""Pending" | "Active" | "Completed""#
    );
    assert_eq!(td.render(), "SimpleStatus");
}

#[test]
fn test_single_unit_variant() {
    let d = desc("SingleVariant", vec![unit("Only")]);
    let td = convert(&d).unwrap();
    assert_eq!(inner_def(td.clone()).render(), r#""Only""#);
    assert_eq!(td.render(), "SingleVariant");
}

#[test]
fn test_newtype_variant_enum() {
    let d = desc(
        "NewtypeWrapper",
        vec![newtype("Text", s()), newtype("Number", n())],
    );
    assert_eq!(
        inner_def(convert(&d).unwrap()).render(),
        r#"{ type: "Text"; value: string } | { type: "Number"; value: number }"#
    );
}

#[test]
fn test_tuple_variant_enum() {
    let d = desc(
        "Pairs",
        vec![tuple("D2", vec![n(), n()]), tuple("D3", vec![n(), n(), n()])],
    );
    assert_eq!(
        inner_def(convert(&d).unwrap()).render(),
        r#"{ type: "D2"; value: [number, number] } | { type: "D3"; value: [number, number, number] }"#
    );
}

#[test]
fn test_struct_variant_enum() {
    let d = desc(
        "Shape",
        vec![
            record(
                "Circle",
                vec![member("center", TypeDef::Ref("Point".to_string())), member("radius", n())],
            ),
            record("Rectangle", vec![member("width", n()), member("height", n())]),
        ],
    );
    let td = convert(&d).unwrap();
    assert_eq!(
        inner_def(td.clone()).render(),
        r#"{ type: "Circle"; center: Point; radius: number } | { type: "Rectangle"; width: number; height: number }"#
    );
    assert_eq!(td.render(), "Shape");
}

#[test]
fn test_mixed_variant_enum() {
    let d = desc(
        "Message",
        vec![
            unit("Ping"),
            newtype("Text", s()),
            newtype("Binary", TypeDef::Array(Box::new(n()))),
            record("Error", vec![member("code", n()), member("message", s())]),
        ],
    );
    let td = convert(&d).unwrap();
    assert_eq!(
        inner_def(td.clone()).render(),
        r#"{ type: "Ping" } | { type: "Text"; value: string } | { type: "Binary"; value: number[] } | { type: "Error"; code: number; message: string }"#
    );
    assert_eq!(td.render(), "Message");
}

#[test]
fn test_generic_enum() {
    // A generic variant set is materialised per concrete argument by the
    // member-type resolver.
    let d = desc("OptionalValue", vec![unit("None"), newtype("Some", s())]);
    let td = convert(&d).unwrap();
    assert_eq!(
        inner_def(td.clone()).render(),
        r#"{ type: "None" } | { type: "Some"; value: string }"#
    );
    assert_eq!(td.render(), "OptionalValue");

    let d2 = desc("OptionalValue", vec![unit("None"), newtype("Some", n())]);
    assert_eq!(
        inner_def(convert(&d2).unwrap()).render(),
        r#"{ type: "None" } | { type: "Some"; value: number }"#
    );
}

#[test]
fn test_complex_nested_types() {
    let d = desc(
        "ComplexVariants",
        vec![
            unit("Empty"),
            newtype("Simple", s()),
            newtype(
                "Nested",
                TypeDef::Array(Box::new(TypeDef::Union(vec![
                    s(),
                    TypeDef::Primitive(Primitive::Null),
                ]))),
            ),
            record(
                "Struct",
                vec![member("items", TypeDef::Array(Box::new(n()))), member("count", n())],
            ),
        ],
    );
    let rendered = inner_def(convert(&d).unwrap()).render();
    assert!(rendered.contains(r#"{ type: "Empty" }"#));
    assert!(rendered.contains(r#"{ type: "Simple"; value: string }"#));
    // An array of a union keeps its parens
    assert!(rendered.contains(r#"{ type: "Nested"; value: (string | null)[] }"#));
    assert!(rendered.contains(r#"{ type: "Struct"; items: number[]; count: number }"#));
}

#[test]
fn test_enum_type_rename() {
    let mut d = desc("StatusWithRenamedType", vec![unit("Active"), unit("Inactive")]);
    d.attrs.rename = Some("RenamedStatus".to_string());
    assert_eq!(convert(&d).unwrap().render(), "RenamedStatus");
}

#[test]
fn test_enum_variant_rename() {
    let mut v1 = unit("Active");
    v1.attrs.rename = Some("active".to_string());
    let mut v2 = unit("Inactive");
    v2.attrs.rename = Some("inactive".to_string());
    let d = desc("VariantRenameEnum", vec![v1, v2]);
    assert_eq!(
        inner_def(convert(&d).unwrap()).render(),
        r#""active" | "inactive""#
    );
}

#[test]
fn test_enum_rename_all_camel_case() {
    let mut d = desc(
        "CamelCaseEnum",
        vec![unit("FirstVariant"), unit("SecondVariant"), unit("ThirdOption")],
    );
    d.attrs.rename_all = Some("camelCase".to_string());
    assert_eq!(
        inner_def(convert(&d).unwrap()).render(),
        r#""firstVariant" | "secondVariant" | "thirdOption""#
    );
}

#[test]
fn test_enum_rename_all_snake_case() {
    let mut d = desc("SnakeCaseEnum", vec![unit("FirstVariant"), unit("SecondVariant")]);
    d.attrs.rename_all = Some("snake_case".to_string());
    assert_eq!(
        inner_def(convert(&d).unwrap()).render(),
        r#""first_variant" | "second_variant""#
    );
}

#[test]
fn test_enum_rename_all_screaming() {
    let mut d = desc("ScreamingEnum", vec![unit("FirstVariant"), unit("SecondVariant")]);
    d.attrs.rename_all = Some("SCREAMING_SNAKE_CASE".to_string());
    assert_eq!(
        inner_def(convert(&d).unwrap()).render(),
        r#""FIRST_VARIANT" | "SECOND_VARIANT""#
    );
}

#[test]
fn test_enum_variant_rename_overrides_rename_all() {
    let mut v2 = unit("SecondVariant");
    v2.attrs.rename = Some("EXPLICIT".to_string());
    let mut d = desc("MixedRenameEnum", vec![unit("FirstVariant"), v2, unit("ThirdVariant")]);
    d.attrs.rename_all = Some("camelCase".to_string());
    let rendered = inner_def(convert(&d).unwrap()).render();
    assert!(rendered.contains(r#""firstVariant""#));
    assert!(rendered.contains(r#""EXPLICIT""#));
    assert!(rendered.contains(r#""thirdVariant""#));
    assert!(!rendered.contains(r#""secondVariant""#));
}

#[test]
fn test_data_variant_rename() {
    let mut v1 = newtype("Text", s());
    v1.attrs.rename = Some("textMessage".to_string());
    let mut v2 = record("Error", vec![member("code", n()), member("message", s())]);
    v2.attrs.rename = Some("errorInfo".to_string());
    let mut d = desc("DataVariantRenameEnum", vec![v1, v2]);
    d.attrs.rename_all = Some("camelCase".to_string());
    let rendered = inner_def(convert(&d).unwrap()).render();
    assert!(rendered.contains(r#"type: "textMessage""#));
    assert!(rendered.contains(r#"type: "errorInfo""#));
}

#[test]
fn test_enum_variant_field_skip() {
    let mut trace = member("internal_trace", s());
    trace.attrs.skip = true;
    let d = desc(
        "EnumWithSkippedField",
        vec![record("Error", vec![member("code", n()), member("message", s()), trace])],
    );
    let rendered = inner_def(convert(&d).unwrap()).render();
    assert!(rendered.contains("code: number"));
    assert!(rendered.contains("message: string"));
    assert!(!rendered.contains("internal_trace"));
}

#[test]
fn test_custom_tag_field_name() {
    let mut d = desc(
        "CustomTagEnum",
        vec![
            unit("Ping"),
            newtype("Text", s()),
            record("Error", vec![member("code", n()), member("message", s())]),
        ],
    );
    d.attrs.tag = Some("kind".to_string());
    let rendered = inner_def(convert(&d).unwrap()).render();
    assert!(rendered.contains(r#"kind: "Ping""#));
    assert!(rendered.contains(r#"kind: "Text""#));
    assert!(rendered.contains(r#"kind: "Error""#));
    assert!(!rendered.contains(r#"type: "#));
}

#[test]
fn test_short_tag_name() {
    let mut d = desc("ShortTagEnum", vec![unit("A"), newtype("B", n())]);
    d.attrs.tag = Some("t".to_string());
    let rendered = inner_def(convert(&d).unwrap()).render();
    assert!(rendered.contains(r#"t: "A""#));
    assert!(rendered.contains(r#"t: "B""#));
}

#[test]
fn test_adjacent_tagging_newtype() {
    let mut d = desc(
        "AdjacentTaggedEnum",
        vec![newtype("Text", s()), newtype("Number", n()), tuple("Tuple", vec![n(), n()])],
    );
    d.attrs.tag = Some("t".to_string());
    d.attrs.content = Some("c".to_string());
    let rendered = inner_def(convert(&d).unwrap()).render();
    assert!(rendered.contains(r#"{ t: "Text"; c: string }"#));
    assert!(rendered.contains(r#"{ t: "Number"; c: number }"#));
    assert!(rendered.contains(r#"{ t: "Tuple"; c: [number, number] }"#));
}

#[test]
fn test_adjacent_tagging_struct_variant() {
    let mut d = desc(
        "AdjacentStructVariant",
        vec![
            record("Error", vec![member("code", n()), member("message", s())]),
            record("Info", vec![member("text", s())]),
        ],
    );
    d.attrs.tag = Some("tag".to_string());
    d.attrs.content = Some("data".to_string());
    let rendered = inner_def(convert(&d).unwrap()).render();
    assert!(rendered.contains(r#"{ tag: "Error"; data: { code: number; message: string } }"#));
    assert!(rendered.contains(r#"{ tag: "Info"; data: { text: string } }"#));
}

#[test]
fn test_adjacent_tagging_mixed_variants() {
    let mut d = desc(
        "AdjacentMixedVariants",
        vec![
            unit("Ping"),
            newtype("Text", s()),
            tuple("Coords", vec![n(), n()]),
            record("Data", vec![member("x", n())]),
        ],
    );
    d.attrs.tag = Some("kind".to_string());
    d.attrs.content = Some("value".to_string());
    let rendered = inner_def(convert(&d).unwrap()).render();
    assert!(rendered.contains(r#"{ kind: "Ping" }"#));
    assert!(rendered.contains(r#"{ kind: "Text"; value: string }"#));
    assert!(rendered.contains(r#"{ kind: "Coords"; value: [number, number] }"#));
    assert!(rendered.contains(r#"{ kind: "Data"; value: { x: number } }"#));
}

#[test]
fn test_untagged_newtype_variants() {
    let mut d = desc(
        "UntaggedValue",
        vec![newtype("Num", n()), newtype("Str", s()), newtype("Bool", b())],
    );
    d.attrs.untagged = true;
    assert_eq!(
        inner_def(convert(&d).unwrap()).render(),
        "number | string | boolean"
    );
}

#[test]
fn test_untagged_mixed_variants() {
    let mut d = desc(
        "UntaggedMixed",
        vec![
            unit("Null"),
            newtype("Text", s()),
            tuple("Pair", vec![n(), n()]),
            record("Object", vec![member("name", s())]),
        ],
    );
    d.attrs.untagged = true;
    let rendered = inner_def(convert(&d).unwrap()).render();
    assert!(rendered.contains(r#""Null""#));
    assert!(rendered.contains("string"));
    assert!(rendered.contains("[number, number]"));
    assert!(rendered.contains("{ name: string }"));
}

#[test]
fn test_untagged_unit_variants() {
    let mut d = desc("UntaggedUnitEnum", vec![unit("A"), unit("B"), unit("C")]);
    d.attrs.untagged = true;
    assert_eq!(inner_def(convert(&d).unwrap()).render(), r#""A" | "B" | "C""#);
}

#[test]
fn test_untagged_with_rename_all() {
    let mut d = desc("UntaggedWithRename", vec![unit("FirstItem"), newtype("SecondItem", s())]);
    d.attrs.untagged = true;
    d.attrs.rename_all = Some("camelCase".to_string());
    let rendered = inner_def(convert(&d).unwrap()).render();
    assert!(rendered.contains(r#""firstItem""#));
    assert!(rendered.contains("string"));
}

#[test]
fn test_all_unit_same_under_every_policy() {
    // An all-unit variant set collapses to the same string-literal union
    // under every tagging policy.
    let expected = r#""Pending" | "Active""#;

    let plain = desc("Status", vec![unit("Pending"), unit("Active")]);
    assert_eq!(inner_def(convert(&plain).unwrap()).render(), expected);

    let mut tagged = desc("Status", vec![unit("Pending"), unit("Active")]);
    tagged.attrs.tag = Some("kind".to_string());
    assert_eq!(inner_def(convert(&tagged).unwrap()).render(), expected);

    let mut adjacent = desc("Status", vec![unit("Pending"), unit("Active")]);
    adjacent.attrs.tag = Some("t".to_string());
    adjacent.attrs.content = Some("c".to_string());
    assert_eq!(inner_def(convert(&adjacent).unwrap()).render(), expected);

    let mut untagged = desc("Status", vec![unit("Pending"), unit("Active")]);
    untagged.attrs.untagged = true;
    assert_eq!(inner_def(convert(&untagged).unwrap()).render(), expected);
}

#[test]
fn test_mixed_variant_default_internal_tagging() {
    // The default policy is internal tagging with a tag field named `type`.
    let d = desc(
        "Msg",
        vec![
            unit("Ping"),
            newtype("Text", s()),
            record("Error", vec![member("code", n()), member("message", s())]),
        ],
    );
    assert_eq!(
        inner_def(convert(&d).unwrap()).render(),
        r#"{ type: "Ping" } | { type: "Text"; value: string } | { type: "Error"; code: number; message: string }"#
    );
}

#[test]
fn test_error_empty_variant_set() {
    let d = desc("Empty", vec![]);
    assert_eq!(convert(&d), Err(ConversionError::EmptyVariantSet));
}
