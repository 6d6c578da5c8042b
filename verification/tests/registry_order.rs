//! Registration, deduplication and dependency ordering.

use ferrotype::fixtures::User;
use ferrotype::{Field, Primitive, TypeDef, TypeRegistry, TypeScript};

fn named(name: &str, def: TypeDef) -> TypeDef {
    TypeDef::Named {
        namespace: vec![],
        name: name.to_string(),
        def: Box::new(def),
        module: None,
        wrapper: None,
    }
}

#[test]
fn test_registry_new() {
    let registry = TypeRegistry::new();
    assert!(registry.is_empty());
    assert_eq!(registry.len(), 0);
}

#[test]
fn test_registry_add_typedef() {
    let mut registry = TypeRegistry::new();

    let user_type = named(
        "User",
        TypeDef::Object(vec![
            Field::new("id", TypeDef::Primitive(Primitive::String)),
            Field::new("name", TypeDef::Primitive(Primitive::String)),
        ]),
    );

    registry.add_typedef(user_type);

    assert_eq!(registry.len(), 1);
    assert!(registry.get("User").is_some());
}

#[test]
fn test_registry_deduplication() {
    let mut registry = TypeRegistry::new();

    let user_type = named("User", TypeDef::Primitive(Primitive::String));

    registry.add_typedef(user_type.clone());
    registry.add_typedef(user_type);

    // Should only have one User type
    assert_eq!(registry.len(), 1);
    assert_eq!(registry.sorted_types().len(), 1);
}

#[test]
fn test_registry_extracts_nested_types() {
    let mut registry = TypeRegistry::new();

    // UserId type (no dependencies)
    let user_id = named("UserId", TypeDef::Primitive(Primitive::String));

    // User type depends on UserId via Ref
    let user = named(
        "User",
        TypeDef::Object(vec![
            Field::new("id", TypeDef::Ref("UserId".to_string())),
            Field::new("name", TypeDef::Primitive(Primitive::String)),
        ]),
    );

    // Post type that references User type
    let post_type = named(
        "Post",
        TypeDef::Object(vec![
            Field::new("title", TypeDef::Primitive(Primitive::String)),
            Field::new("author", user),
        ]),
    );

    registry.add_typedef(post_type);
    registry.add_typedef(user_id);

    // Should have Post, User, and UserId
    assert_eq!(registry.len(), 3);
    assert!(registry.get("Post").is_some());
    assert!(registry.get("User").is_some());
    assert!(registry.get("UserId").is_some());
}

#[test]
fn test_registry_render() {
    let mut registry = TypeRegistry::new();

    let user_type = named(
        "User",
        TypeDef::Object(vec![
            Field::new("id", TypeDef::Primitive(Primitive::String)),
            Field::new("name", TypeDef::Primitive(Primitive::String)),
        ]),
    );

    registry.add_typedef(user_type);

    let output = registry.render();
    assert!(output.contains("// Generated by ferrotype"));
    assert!(output.contains("type User = { id: string; name: string };"));
}

#[test]
fn test_registry_render_exported() {
    let mut registry = TypeRegistry::new();

    let user_type = named("User", TypeDef::Primitive(Primitive::String));

    registry.add_typedef(user_type);

    let output = registry.render_exported();
    assert!(output.contains("export type User = string;"));
}

#[test]
fn test_registry_dependency_order() {
    let mut registry = TypeRegistry::new();

    // UserId type (no dependencies)
    let user_id = named("UserId", TypeDef::Primitive(Primitive::String));

    // User type depends on UserId via Ref
    let user = named(
        "User",
        TypeDef::Object(vec![
            Field::new("id", TypeDef::Ref("UserId".to_string())),
            Field::new("name", TypeDef::Primitive(Primitive::String)),
        ]),
    );

    // Add in reverse order (User before UserId)
    registry.add_typedef(user);
    registry.add_typedef(user_id);

    let sorted = registry.sorted_types();

    // UserId should come before User
    let user_id_pos = sorted.iter().position(|n| n == "UserId").unwrap();
    let user_pos = sorted.iter().position(|n| n == "User").unwrap();
    assert!(user_id_pos < user_pos, "UserId should come before User");
}

#[test]
fn test_registry_clear() {
    let mut registry = TypeRegistry::new();

    let user_type = named("User", TypeDef::Primitive(Primitive::String));

    registry.add_typedef(user_type);
    assert_eq!(registry.len(), 1);

    registry.clear();
    assert!(registry.is_empty());
}

#[test]
fn test_registry_type_names() {
    let mut registry = TypeRegistry::new();

    registry.add_typedef(named("Alpha", TypeDef::Primitive(Primitive::String)));
    registry.add_typedef(named("Beta", TypeDef::Primitive(Primitive::Number)));

    let names: Vec<String> = registry.type_names();
    assert_eq!(names.len(), 2);
    assert!(names.contains(&"Alpha".to_string()));
    assert!(names.contains(&"Beta".to_string()));
}

#[test]
fn test_registry_complex_dependencies() {
    let mut registry = TypeRegistry::new();

    // A -> B -> C (C should come first)
    let c = named("C", TypeDef::Primitive(Primitive::String));

    let b = named(
        "B",
        TypeDef::Object(vec![Field::new("c", TypeDef::Ref("C".to_string()))]),
    );

    let a = named(
        "A",
        TypeDef::Object(vec![Field::new("b", TypeDef::Ref("B".to_string()))]),
    );

    // Add in wrong order
    registry.add_typedef(a);
    registry.add_typedef(b);
    registry.add_typedef(c);

    let sorted = registry.sorted_types();

    let c_pos = sorted.iter().position(|n| n == "C").unwrap();
    let b_pos = sorted.iter().position(|n| n == "B").unwrap();
    let a_pos = sorted.iter().position(|n| n == "A").unwrap();

    assert!(c_pos < b_pos, "C should come before B");
    assert!(b_pos < a_pos, "B should come before A");
}

#[test]
fn test_registry_two_type_cycle() {
    // A mutual-reference cycle still yields exactly two entries: the sort
    // terminates and drops nothing.
    let mut registry = TypeRegistry::new();

    let a = named(
        "A",
        TypeDef::Object(vec![Field::new("b", TypeDef::Ref("B".to_string()))]),
    );
    let b = named(
        "B",
        TypeDef::Object(vec![Field::new("a", TypeDef::Ref("A".to_string()))]),
    );

    registry.add_typedef(a);
    registry.add_typedef(b);

    let sorted = registry.sorted_types();
    assert_eq!(sorted.len(), 2);
    assert!(sorted.contains(&"A".to_string()));
    assert!(sorted.contains(&"B".to_string()));
    // Cycles degrade to registration order.
    assert_eq!(sorted[0], "A");
    assert_eq!(sorted[1], "B");
}

#[test]
fn test_registry_self_reference_cycle() {
    let mut registry = TypeRegistry::new();

    let node = named(
        "Node",
        TypeDef::Object(vec![Field::new(
            "next",
            TypeDef::Union(vec![
                TypeDef::Ref("Node".to_string()),
                TypeDef::Primitive(Primitive::Null),
            ]),
        )]),
    );

    registry.add_typedef(node);

    let sorted = registry.sorted_types();
    assert_eq!(sorted.len(), 1);
    assert_eq!(sorted[0], "Node");
}

#[test]
fn test_registry_dangling_ref_is_kept() {
    // A reference to a name that is never registered stays a bare
    // identifier: no error, no entry for the missing name.
    let mut registry = TypeRegistry::new();

    let user = named(
        "User",
        TypeDef::Object(vec![Field::new(
            "external",
            TypeDef::Ref("SomewhereElse".to_string()),
        )]),
    );

    registry.add_typedef(user);

    assert_eq!(registry.len(), 1);
    let output = registry.render();
    assert!(output.contains("type User = { external: SomewhereElse };"));
}

#[test]
fn test_registry_register_through_trait() {
    let mut registry = TypeRegistry::new();
    registry.register::<User>();
    assert_eq!(registry.len(), 1);
    assert!(registry.get("User").is_some());
    let td = User::typescript();
    assert_eq!(td.render(), "User");
}
