//! Converting record descriptors: naming, skip, flatten, overrides,
//! transparency, patterns and the error taxonomy.

use ferrotype::{
    convert, ContainerAttrs, ConversionError, Field, FieldAttrs, Member, Primitive,
    SourceDescriptor, SourceKind, TypeDef,
};

fn named(name: &str, def: TypeDef) -> TypeDef {
    TypeDef::Named {
        namespace: vec![],
        name: name.to_string(),
        def: Box::new(def),
        module: None,
        wrapper: None,
    }
}

fn member(name: &str, ty: TypeDef) -> Member {
    Member { name: name.to_string(), ty, attrs: FieldAttrs::default() }
}

fn desc(name: &str, kind: SourceKind) -> SourceDescriptor {
    SourceDescriptor {
        name: name.to_string(),
        module: None,
        attrs: ContainerAttrs::default(),
        kind,
    }
}

fn inner_def(td: TypeDef) -> TypeDef {
    match td {
        TypeDef::Named { def, .. } => *def,
        other => other,
    }
}

fn s() -> TypeDef {
    TypeDef::Primitive(Primitive::String)
}

fn n() -> TypeDef {
    TypeDef::Primitive(Primitive::Number)
}

fn b() -> TypeDef {
    TypeDef::Primitive(Primitive::Boolean)
}

#[test]
fn test_named_struct() {
    let d = desc(
        "SimpleUser",
        SourceKind::Record(vec![
            member("id", s()),
            member("name", s()),
            member("age", n()),
        ]),
    );
    let rendered = inner_def(convert(&d).unwrap()).render();
    assert!(rendered.contains("id: string"));
    assert!(rendered.contains("name: string"));
    assert!(rendered.contains("age: number"));
}

#[test]
fn test_named_struct_name() {
    let d = desc("SimpleUser", SourceKind::Record(vec![member("id", s())]));
    let td = convert(&d).unwrap();
    // Named types render as just their name
    assert_eq!(td.render(), "SimpleUser");
}

#[test]
fn test_empty_struct() {
    let d = desc("EmptyStruct", SourceKind::Record(vec![]));
    assert_eq!(inner_def(convert(&d).unwrap()).render(), "{}");
}

#[test]
fn test_nested_struct() {
    let simple_user = named("SimpleUser", TypeDef::Object(vec![Field::new("id", s())]));
    let d = desc(
        "NestedStruct",
        SourceKind::Record(vec![member("user", simple_user), member("active", b())]),
    );
    let rendered = inner_def(convert(&d).unwrap()).render();
    // The user field should reference SimpleUser (which renders as its name)
    assert!(rendered.contains("user: SimpleUser"));
    assert!(rendered.contains("active: boolean"));
}

#[test]
fn test_newtype_struct() {
    // Newtypes should unwrap to their inner type
    let d = desc("NewtypeString", SourceKind::TupleRecord(vec![s()]));
    assert_eq!(inner_def(convert(&d).unwrap()).render(), "string");
}

#[test]
fn test_tuple_struct() {
    let d = desc("TupleTwo", SourceKind::TupleRecord(vec![s(), n()]));
    assert_eq!(inner_def(convert(&d).unwrap()).render(), "[string, number]");
}

#[test]
fn test_tuple_three() {
    let d = desc("TupleThree", SourceKind::TupleRecord(vec![s(), n(), b()]));
    assert_eq!(
        inner_def(convert(&d).unwrap()).render(),
        "[string, number, boolean]"
    );
}

#[test]
fn test_unit_struct() {
    let d = desc("UnitStruct", SourceKind::UnitRecord);
    assert_eq!(inner_def(convert(&d).unwrap()).render(), "null");
}

#[test]
fn test_generic_struct() {
    // A generic record is materialised once concrete arguments are
    // resolved by the member-type resolver.
    let d = desc("Container", SourceKind::Record(vec![member("value", s())]));
    assert!(inner_def(convert(&d).unwrap()).render().contains("value: string"));

    let d2 = desc("Container", SourceKind::Record(vec![member("value", n())]));
    assert!(inner_def(convert(&d2).unwrap()).render().contains("value: number"));
}

#[test]
fn test_type_rename() {
    let mut d = desc(
        "UserWithRenamedType",
        SourceKind::Record(vec![member("id", s()), member("name", s())]),
    );
    d.attrs.rename = Some("RenamedUser".to_string());
    let td = convert(&d).unwrap();
    assert_eq!(td.render(), "RenamedUser");
    assert_eq!(
        td.render_declaration(),
        "type RenamedUser = { id: string; name: string };"
    );
}

#[test]
fn test_field_rename() {
    let mut m1 = member("user_id", s());
    m1.attrs.rename = Some("userId".to_string());
    let mut m2 = member("user_name", s());
    m2.attrs.rename = Some("userName".to_string());
    let d = desc(
        "FieldRenameStruct",
        SourceKind::Record(vec![m1, m2, member("not_renamed", n())]),
    );
    let rendered = inner_def(convert(&d).unwrap()).render();
    assert!(rendered.contains("userId: string"));
    assert!(rendered.contains("userName: string"));
    assert!(rendered.contains("not_renamed: number"));
    assert!(!rendered.contains("user_id:"));
    assert!(!rendered.contains("user_name:"));
}

#[test]
fn test_rename_all_camel_case() {
    let mut d = desc(
        "CamelCaseStruct",
        SourceKind::Record(vec![
            member("user_id", s()),
            member("user_name", s()),
            member("is_active", b()),
        ]),
    );
    d.attrs.rename_all = Some("camelCase".to_string());
    let rendered = inner_def(convert(&d).unwrap()).render();
    assert!(rendered.contains("userId: string"));
    assert!(rendered.contains("userName: string"));
    assert!(rendered.contains("isActive: boolean"));
}

#[test]
fn test_rename_all_pascal_case() {
    let mut d = desc(
        "PascalCaseStruct",
        SourceKind::Record(vec![member("user_id", s()), member("is_active", b())]),
    );
    d.attrs.rename_all = Some("PascalCase".to_string());
    let rendered = inner_def(convert(&d).unwrap()).render();
    assert!(rendered.contains("UserId: string"));
    assert!(rendered.contains("IsActive: boolean"));
}

#[test]
fn test_rename_all_screaming_snake() {
    let mut d = desc(
        "ScreamingSnakeStruct",
        SourceKind::Record(vec![member("user_id", s()), member("is_active", b())]),
    );
    d.attrs.rename_all = Some("SCREAMING_SNAKE_CASE".to_string());
    let rendered = inner_def(convert(&d).unwrap()).render();
    assert!(rendered.contains("USER_ID: string"));
    assert!(rendered.contains("IS_ACTIVE: boolean"));
}

#[test]
fn test_rename_all_kebab_case() {
    let mut d = desc(
        "KebabCaseStruct",
        SourceKind::Record(vec![member("user_id", s()), member("is_active", b())]),
    );
    d.attrs.rename_all = Some("kebab-case".to_string());
    let rendered = inner_def(convert(&d).unwrap()).render();
    assert!(rendered.contains("user-id: string"));
    assert!(rendered.contains("is-active: boolean"));
}

#[test]
fn test_field_rename_overrides_rename_all() {
    let mut m2 = member("some_field", s());
    m2.attrs.rename = Some("EXPLICIT_NAME".to_string());
    let mut d = desc(
        "MixedRenameStruct",
        SourceKind::Record(vec![
            member("user_id", s()),
            m2,
            member("another_field", n()),
        ]),
    );
    d.attrs.rename_all = Some("camelCase".to_string());
    let rendered = inner_def(convert(&d).unwrap()).render();
    assert!(rendered.contains("userId: string"));
    assert!(rendered.contains("anotherField: number"));
    assert!(rendered.contains("EXPLICIT_NAME: string"));
    assert!(!rendered.contains("someField:"));
}

#[test]
fn test_skip_field() {
    let mut m3 = member("internal_state", n());
    m3.attrs.skip = true;
    let mut m4 = member("cache", s());
    m4.attrs.skip = true;
    let d = desc(
        "SkipFieldStruct",
        SourceKind::Record(vec![
            member("id", s()),
            member("name", s()),
            m3,
            m4,
            member("visible", b()),
        ]),
    );
    let rendered = inner_def(convert(&d).unwrap()).render();
    assert!(rendered.contains("id: string"));
    assert!(rendered.contains("name: string"));
    assert!(rendered.contains("visible: boolean"));
    assert!(!rendered.contains("internal_state"));
    assert!(!rendered.contains("cache"));
}

#[test]
fn test_all_fields_skipped() {
    let mut m1 = member("hidden1", s());
    m1.attrs.skip = true;
    let mut m2 = member("hidden2", n());
    m2.attrs.skip = true;
    let d = desc("AllSkippedStruct", SourceKind::Record(vec![m1, m2]));
    assert_eq!(inner_def(convert(&d).unwrap()).render(), "{}");
}

#[test]
fn test_skip_with_rename_all() {
    let mut m2 = member("internal_id", n());
    m2.attrs.skip = true;
    let mut d = desc(
        "SkipWithRenameAll",
        SourceKind::Record(vec![member("user_id", s()), m2, member("user_name", s())]),
    );
    d.attrs.rename_all = Some("camelCase".to_string());
    let rendered = inner_def(convert(&d).unwrap()).render();
    assert!(rendered.contains("userId: string"));
    assert!(rendered.contains("userName: string"));
    assert!(!rendered.contains("internalId"));
    assert!(!rendered.contains("internal_id"));
}

#[test]
fn test_flatten_basic() {
    let inner_data = named(
        "InnerData",
        TypeDef::Object(vec![
            Field::new("inner_field", s()),
            Field::new("inner_count", n()),
        ]),
    );
    let mut m2 = member("inner", inner_data);
    m2.attrs.flatten = true;
    let d = desc(
        "OuterWithFlatten",
        SourceKind::Record(vec![
            member("outer_id", s()),
            m2,
            member("outer_active", b()),
        ]),
    );
    let rendered = inner_def(convert(&d).unwrap()).render();
    assert!(rendered.contains("outer_id: string"));
    assert!(rendered.contains("inner_field: string"));
    assert!(rendered.contains("inner_count: number"));
    assert!(rendered.contains("outer_active: boolean"));
    assert!(!rendered.contains("inner: InnerData"));
    assert!(!rendered.contains("inner: {"));
}

#[test]
fn test_flatten_with_multiple_fields() {
    let meta = named(
        "Metadata",
        TypeDef::Object(vec![
            Field::new("created_at", s()),
            Field::new("updated_at", s()),
        ]),
    );
    let mut m2 = member("meta", meta);
    m2.attrs.flatten = true;
    let d = desc("Resource", SourceKind::Record(vec![member("id", s()), m2]));
    let rendered = inner_def(convert(&d).unwrap()).render();
    assert!(rendered.contains("id: string"));
    assert!(rendered.contains("created_at: string"));
    assert!(rendered.contains("updated_at: string"));
}

#[test]
fn test_type_override() {
    let mut m1 = member("created_at", s());
    m1.attrs.type_override = Some("Date".to_string());
    let mut m2 = member("updated_at", s());
    m2.attrs.type_override = Some("Date".to_string());
    let d = desc(
        "DateFields",
        SourceKind::Record(vec![m1, m2, member("name", s())]),
    );
    let rendered = inner_def(convert(&d).unwrap()).render();
    assert!(rendered.contains("created_at: Date"));
    assert!(rendered.contains("updated_at: Date"));
    assert!(rendered.contains("name: string"));
}

#[test]
fn test_type_override_complex() {
    let mut m1 = member("element", n());
    m1.attrs.type_override = Some("HTMLElement".to_string());
    let mut m2 = member("data", s());
    m2.attrs.type_override = Some("Map<string, number>".to_string());
    let d = desc("CustomTypes", SourceKind::Record(vec![m1, m2]));
    let rendered = inner_def(convert(&d).unwrap()).render();
    assert!(rendered.contains("element: HTMLElement"));
    assert!(rendered.contains("data: Map<string, number>"));
}

#[test]
fn test_transparent_newtype() {
    let mut d = desc("UserId", SourceKind::TupleRecord(vec![s()]));
    d.attrs.transparent = true;
    // Transparent types are not wrapped in Named: they are the inner type
    assert_eq!(convert(&d).unwrap().render(), "string");
}

#[test]
fn test_transparent_number() {
    let mut d = desc("Count", SourceKind::TupleRecord(vec![n()]));
    d.attrs.transparent = true;
    assert_eq!(convert(&d).unwrap().render(), "number");
}

#[test]
fn test_transparent_complex() {
    let mut d = desc(
        "Items",
        SourceKind::TupleRecord(vec![TypeDef::Array(Box::new(s()))]),
    );
    d.attrs.transparent = true;
    assert_eq!(convert(&d).unwrap().render(), "string[]");
}

#[test]
fn test_default_makes_optional() {
    let mut m2 = member("optional_count", n());
    m2.attrs.default = true;
    let mut m3 = member("optional_name", s());
    m3.attrs.default = true;
    let d = desc(
        "ConfigWithDefaults",
        SourceKind::Record(vec![member("required_field", s()), m2, m3]),
    );
    let rendered = inner_def(convert(&d).unwrap()).render();
    assert!(rendered.contains("required_field: string"));
    assert!(!rendered.contains("required_field?"));
    assert!(rendered.contains("optional_count?: number"));
    assert!(rendered.contains("optional_name?: string"));
}

#[test]
fn test_default_with_rename() {
    let mut m2 = member("display_name", s());
    m2.attrs.default = true;
    let mut d = desc(
        "ConfigWithDefaultsAndRename",
        SourceKind::Record(vec![member("user_id", s()), m2]),
    );
    d.attrs.rename_all = Some("camelCase".to_string());
    let rendered = inner_def(convert(&d).unwrap()).render();
    assert!(rendered.contains("userId: string"));
    assert!(rendered.contains("displayName?: string"));
}

#[test]
fn test_optional_unwraps_maybe() {
    // `optional` on a maybe-wrapped member unwraps the wrapper instead of
    // unioning with null: `field?: T`, not `field?: T | null`.
    let maybe_string = TypeDef::Union(vec![s(), TypeDef::Primitive(Primitive::Null)]);
    let mut m = member("nickname", maybe_string);
    m.attrs.optional = true;
    let d = desc("WithMaybe", SourceKind::Record(vec![m]));
    let rendered = inner_def(convert(&d).unwrap()).render();
    assert_eq!(rendered, "{ nickname?: string }");
}

#[test]
fn test_inline_type() {
    let address = named(
        "Address",
        TypeDef::Object(vec![Field::new("street", s()), Field::new("city", s())]),
    );
    let mut m2 = member("address", address);
    m2.attrs.inline = true;
    let d = desc(
        "PersonWithInline",
        SourceKind::Record(vec![member("name", s()), m2]),
    );
    let rendered = inner_def(convert(&d).unwrap()).render();
    assert!(rendered.contains("name: string"));
    assert!(rendered.contains("address: { street: string; city: string }"));
    assert!(!rendered.contains("address: Address"));
}

#[test]
fn test_inline_simple_type() {
    let nested = named("NestedType", TypeDef::Object(vec![Field::new("value", n())]));
    let mut m1 = member("nested", nested);
    m1.attrs.inline = true;
    let d = desc(
        "ContainerWithInline",
        SourceKind::Record(vec![m1, member("other", s())]),
    );
    let rendered = inner_def(convert(&d).unwrap()).render();
    assert!(rendered.contains("nested: { value: number }"));
    assert!(rendered.contains("other: string"));
}

#[test]
fn test_indexed_access_member() {
    let mut m = member("login_name", s());
    m.attrs.index = Some("Profile".to_string());
    m.attrs.key = Some("login".to_string());
    let d = desc("UsesIndexed", SourceKind::Record(vec![m]));
    let rendered = inner_def(convert(&d).unwrap()).render();
    assert!(rendered.contains("login_name: Profile[\"login\"]"));
}

#[test]
fn test_pattern_member() {
    let mut m = member("version", s());
    m.attrs.pattern = Some("v${number}.${number}.${number}".to_string());
    let d = desc("Versioned", SourceKind::Record(vec![m]));
    let rendered = inner_def(convert(&d).unwrap()).render();
    assert!(rendered.contains("version: `v${number}.${number}.${number}`"));
}

#[test]
fn test_container_pattern() {
    let mut d = desc("VmId", SourceKind::TupleRecord(vec![s()]));
    d.attrs.pattern = Some("vm-${string}".to_string());
    let td = convert(&d).unwrap();
    assert_eq!(td.render(), "VmId");
    assert_eq!(td.render_declaration(), "type VmId = `vm-${string}`;");
}

#[test]
fn test_extends_intersection() {
    let mut d = desc("Extended", SourceKind::Record(vec![member("extra", s())]));
    d.attrs.extends = Some("Base.Todo".to_string());
    let rendered = inner_def(convert(&d).unwrap()).render();
    assert_eq!(rendered, "Base.Todo & { extra: string }");
}

#[test]
fn test_error_unknown_rename_all() {
    let mut d = desc("Bad", SourceKind::Record(vec![member("a", s())]));
    d.attrs.rename_all = Some("UPPERCASE".to_string());
    assert_eq!(convert(&d), Err(ConversionError::UnknownRenameAll));
}

#[test]
fn test_error_unpaired_index_key() {
    let mut m = member("a", s());
    m.attrs.index = Some("Profile".to_string());
    let d = desc("Bad", SourceKind::Record(vec![m]));
    assert_eq!(convert(&d), Err(ConversionError::UnpairedIndexKey));
}

#[test]
fn test_error_flatten_on_non_object() {
    let mut m = member("a", s());
    m.attrs.flatten = true;
    let d = desc("Bad", SourceKind::Record(vec![m]));
    assert_eq!(convert(&d), Err(ConversionError::FlattenOnNonObject));
}

#[test]
fn test_error_empty_placeholder() {
    let mut m = member("a", s());
    m.attrs.pattern = Some("x${}".to_string());
    let d = desc("Bad", SourceKind::Record(vec![m]));
    assert_eq!(convert(&d), Err(ConversionError::EmptyPlaceholder));
}

#[test]
fn test_error_transparent_on_record() {
    let mut d = desc("Bad", SourceKind::Record(vec![member("a", s())]));
    d.attrs.transparent = true;
    assert_eq!(convert(&d), Err(ConversionError::TransparentOnNonNewtype));
}
