//! Rendering the IR to TypeScript syntax.

use ferrotype::{Field, Literal, Primitive, TypeDef};

fn named(name: &str, def: TypeDef) -> TypeDef {
    TypeDef::Named {
        namespace: vec![],
        name: name.to_string(),
        def: Box::new(def),
        module: None,
        wrapper: None,
    }
}

#[test]
fn test_typedef_primitive_render() {
    assert_eq!(TypeDef::Primitive(Primitive::String).render(), "string");
    assert_eq!(TypeDef::Primitive(Primitive::Number).render(), "number");
    assert_eq!(TypeDef::Primitive(Primitive::Boolean).render(), "boolean");
    assert_eq!(TypeDef::Primitive(Primitive::Null).render(), "null");
    assert_eq!(TypeDef::Primitive(Primitive::Undefined).render(), "undefined");
    assert_eq!(TypeDef::Primitive(Primitive::Void).render(), "void");
    assert_eq!(TypeDef::Primitive(Primitive::Never).render(), "never");
    assert_eq!(TypeDef::Primitive(Primitive::Any).render(), "any");
    assert_eq!(TypeDef::Primitive(Primitive::Unknown).render(), "unknown");
    assert_eq!(TypeDef::Primitive(Primitive::BigInt).render(), "bigint");
}

#[test]
fn test_typedef_array_render() {
    let arr = TypeDef::Array(Box::new(TypeDef::Primitive(Primitive::String)));
    assert_eq!(arr.render(), "string[]");

    // Union in array should be wrapped in parens
    let union_arr = TypeDef::Array(Box::new(TypeDef::Union(vec![
        TypeDef::Primitive(Primitive::String),
        TypeDef::Primitive(Primitive::Number),
    ])));
    assert_eq!(union_arr.render(), "(string | number)[]");
}

#[test]
fn test_array_of_refs_union_parenthesised() {
    // An array over a union of references parenthesises the union, never
    // distributing the brackets to the last member alone.
    let arr = TypeDef::Array(Box::new(TypeDef::Union(vec![
        TypeDef::Ref("A".to_string()),
        TypeDef::Ref("B".to_string()),
    ])));
    assert_eq!(arr.render(), "(A | B)[]");
    // A non-union inner type stays bare.
    let plain = TypeDef::Array(Box::new(TypeDef::Ref("A".to_string())));
    assert_eq!(plain.render(), "A[]");
}

#[test]
fn test_typedef_tuple_render() {
    let tuple = TypeDef::Tuple(vec![
        TypeDef::Primitive(Primitive::String),
        TypeDef::Primitive(Primitive::Number),
    ]);
    assert_eq!(tuple.render(), "[string, number]");
}

#[test]
fn test_typedef_object_render() {
    let obj = TypeDef::Object(vec![
        Field::new("name", TypeDef::Primitive(Primitive::String)),
        Field::optional("age", TypeDef::Primitive(Primitive::Number)),
    ]);
    assert_eq!(obj.render(), "{ name: string; age?: number }");

    let empty_obj = TypeDef::Object(vec![]);
    assert_eq!(empty_obj.render(), "{}");
}

#[test]
fn test_typedef_object_readonly_field() {
    let obj = TypeDef::Object(vec![
        Field::new("id", TypeDef::Primitive(Primitive::String)).readonly(),
    ]);
    assert_eq!(obj.render(), "{ readonly id: string }");
}

#[test]
fn test_typedef_union_render() {
    let u = TypeDef::Union(vec![
        TypeDef::Primitive(Primitive::String),
        TypeDef::Primitive(Primitive::Number),
        TypeDef::Primitive(Primitive::Null),
    ]);
    assert_eq!(u.render(), "string | number | null");
}

#[test]
fn test_typedef_intersection_render() {
    let intersection = TypeDef::Intersection(vec![
        TypeDef::Ref("Base".to_string()),
        TypeDef::Object(vec![Field::new("extra", TypeDef::Primitive(Primitive::String))]),
    ]);
    assert_eq!(intersection.render(), "Base & { extra: string }");
}

#[test]
fn test_typedef_record_render() {
    let record = TypeDef::Record {
        key: Box::new(TypeDef::Primitive(Primitive::String)),
        value: Box::new(TypeDef::Primitive(Primitive::Number)),
    };
    assert_eq!(record.render(), "Record<string, number>");
}

#[test]
fn test_typedef_named_render() {
    let n = named("UserId", TypeDef::Primitive(Primitive::String));
    // Named types render as just their name (for inline use)
    assert_eq!(n.render(), "UserId");
    // Full declaration uses render_declaration
    assert_eq!(n.render_declaration(), "type UserId = string;");
}

#[test]
fn test_named_render_declaration_with_wrapper() {
    let n = TypeDef::Named {
        namespace: vec![],
        name: "User".to_string(),
        def: Box::new(TypeDef::Object(vec![Field::new(
            "id",
            TypeDef::Primitive(Primitive::String),
        )])),
        module: None,
        wrapper: Some("Prettify".to_string()),
    };
    assert_eq!(n.render_declaration(), "type User = Prettify<{ id: string }>;");
}

#[test]
fn test_typedef_ref_render() {
    let ref_type = TypeDef::Ref("User".to_string());
    assert_eq!(ref_type.render(), "User");
}

#[test]
fn test_typedef_literal_render() {
    assert_eq!(
        TypeDef::Literal(Literal::String("foo".to_string())).render(),
        "\"foo\""
    );
    assert_eq!(
        TypeDef::Literal(Literal::Number { mantissa: 42, scale: 0 }).render(),
        "42"
    );
    assert_eq!(
        TypeDef::Literal(Literal::Number { mantissa: 314, scale: 2 }).render(),
        "3.14"
    );
    assert_eq!(TypeDef::Literal(Literal::Boolean(true)).render(), "true");
    assert_eq!(TypeDef::Literal(Literal::Boolean(false)).render(), "false");
}

#[test]
fn test_number_literal_edge_cases() {
    assert_eq!(
        TypeDef::Literal(Literal::Number { mantissa: 0, scale: 0 }).render(),
        "0"
    );
    assert_eq!(
        TypeDef::Literal(Literal::Number { mantissa: -42, scale: 0 }).render(),
        "-42"
    );
    assert_eq!(
        TypeDef::Literal(Literal::Number { mantissa: 5, scale: 1 }).render(),
        "0.5"
    );
    assert_eq!(
        TypeDef::Literal(Literal::Number { mantissa: -15, scale: 1 }).render(),
        "-1.5"
    );
    assert_eq!(
        TypeDef::Literal(Literal::Number { mantissa: 5, scale: 3 }).render(),
        "0.005"
    );
}

#[test]
fn test_typedef_literal_escaping() {
    let lit = TypeDef::Literal(Literal::String("say \"hello\"".to_string()));
    assert_eq!(lit.render(), "\"say \\\"hello\\\"\"");
    let back = TypeDef::Literal(Literal::String("a\\b".to_string()));
    assert_eq!(back.render(), "\"a\\\\b\"");
}

#[test]
fn test_typedef_function_render() {
    let func = TypeDef::Function {
        params: vec![
            Field::new("name", TypeDef::Primitive(Primitive::String)),
            Field::new("age", TypeDef::Primitive(Primitive::Number)),
        ],
        return_type: Box::new(TypeDef::Primitive(Primitive::Void)),
    };
    assert_eq!(func.render(), "(name: string, age: number) => void");
}

#[test]
fn test_typedef_generic_render() {
    let generic = TypeDef::Generic {
        base: "Promise".to_string(),
        args: vec![TypeDef::Primitive(Primitive::String)],
    };
    assert_eq!(generic.render(), "Promise<string>");

    let multi_generic = TypeDef::Generic {
        base: "Map".to_string(),
        args: vec![
            TypeDef::Primitive(Primitive::String),
            TypeDef::Primitive(Primitive::Number),
        ],
    };
    assert_eq!(multi_generic.render(), "Map<string, number>");
}

#[test]
fn test_template_literal_render() {
    let tpl = TypeDef::TemplateLiteral {
        strings: vec!["vm-".to_string(), "".to_string()],
        types: vec![TypeDef::Primitive(Primitive::String)],
    };
    assert_eq!(tpl.render(), "`vm-${string}`");
}

#[test]
fn test_indexed_access_render() {
    let ia = TypeDef::IndexedAccess {
        base: "Profile".to_string(),
        key: "login".to_string(),
    };
    assert_eq!(ia.render(), "Profile[\"login\"]");
}

#[test]
fn test_typedef_equality() {
    let a = TypeDef::Primitive(Primitive::String);
    let b = TypeDef::Primitive(Primitive::String);
    let c = TypeDef::Primitive(Primitive::Number);
    assert_eq!(a, b);
    assert_ne!(a, c);
}

#[test]
fn test_field_builder() {
    let field = Field::new("name", TypeDef::Primitive(Primitive::String));
    assert!(!field.optional);
    assert!(!field.readonly);

    let opt_field = Field::optional("name", TypeDef::Primitive(Primitive::String));
    assert!(opt_field.optional);

    let readonly_field = Field::new("id", TypeDef::Primitive(Primitive::String)).readonly();
    assert!(readonly_field.readonly);
}

#[test]
fn test_extract_object_fields_unwraps_named() {
    let obj = TypeDef::Object(vec![Field::new("a", TypeDef::Primitive(Primitive::String))]);
    let n = named("Wrapped", obj);
    let fields = ferrotype::extract_object_fields(&n);
    assert_eq!(fields.len(), 1);
    assert_eq!(fields[0].name, "a");
}

#[test]
fn test_inline_typedef_unwraps_named() {
    let n = named("X", TypeDef::Primitive(Primitive::Number));
    let inner = ferrotype::inline_typedef(n);
    assert_eq!(inner, TypeDef::Primitive(Primitive::Number));
    let plain = ferrotype::inline_typedef(TypeDef::Primitive(Primitive::Boolean));
    assert_eq!(plain, TypeDef::Primitive(Primitive::Boolean));
}
