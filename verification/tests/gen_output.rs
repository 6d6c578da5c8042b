//! Output generation under the configuration surface.

use ferrotype::{generate, module_to_path, Config, ExportStyle, Generator, Primitive, TypeDef};

fn named(name: &str, def: TypeDef) -> TypeDef {
    TypeDef::Named {
        namespace: vec![],
        name: name.to_string(),
        def: Box::new(def),
        module: None,
        wrapper: None,
    }
}

#[test]
fn test_config_builder() {
    let config = Config::new()
        .output("types.ts")
        .export_style(ExportStyle::Named)
        .header("Custom header")
        .declaration_only()
        .esm_extensions();

    assert_eq!(config.output, Some("types.ts".to_string()));
    assert_eq!(config.export_style, ExportStyle::Named);
    assert_eq!(config.header, Some("Custom header".to_string()));
    assert!(config.declaration_only);
    assert!(config.esm_extensions);
}

#[test]
fn test_generator_register() {
    let mut generator = Generator::with_defaults();

    // Register string type (primitive, no named type added)
    generator.register::<String>();

    // Registry should be empty since String doesn't create a Named type
    assert_eq!(generator.registry().len(), 0);
}

#[test]
fn test_generator_add_typedef() {
    let mut generator = Generator::with_defaults();

    let user_type = named(
        "User",
        TypeDef::Object(vec![
            ferrotype::Field::new("id", TypeDef::Primitive(Primitive::String)),
            ferrotype::Field::new("name", TypeDef::Primitive(Primitive::String)),
        ]),
    );

    generator.add(user_type);

    assert_eq!(generator.registry().len(), 1);
    assert!(generator.registry().get("User").is_some());
}

#[test]
fn test_generate_export_none() {
    let mut generator = Generator::new(Config::new().export_style(ExportStyle::Plain));

    generator.add(named("User", TypeDef::Primitive(Primitive::String)));

    let output = generator.generate();
    assert!(output.contains("type User = string;"));
    assert!(!output.contains("export type User"));
}

#[test]
fn test_generate_export_named() {
    let mut generator = Generator::new(Config::new().export_style(ExportStyle::Named));

    generator.add(named("User", TypeDef::Primitive(Primitive::String)));

    let output = generator.generate();
    assert!(output.contains("export type User = string;"));
}

#[test]
fn test_generate_export_grouped() {
    let mut generator = Generator::new(Config::new().export_style(ExportStyle::Grouped));

    generator.add(named("User", TypeDef::Primitive(Primitive::String)));
    generator.add(named("Post", TypeDef::Primitive(Primitive::String)));

    let output = generator.generate();
    assert!(output.contains("type User = string;"));
    assert!(output.contains("type Post = string;"));
    assert!(output.contains("export { "));
    assert!(output.contains("User"));
    assert!(output.contains("Post"));
}

#[test]
fn test_generate_custom_header() {
    let generator = Generator::new(Config::new().header("My custom header"));

    let output = generator.generate();
    assert!(output.starts_with("// My custom header\n"));
}

#[test]
fn test_generate_default_header() {
    let generator = Generator::with_defaults();

    let output = generator.generate();
    assert!(output.contains("// Generated by ferro-type-gen"));
    assert!(output.contains("// Do not edit manually"));
}

#[test]
fn test_include_utilities() {
    let generator = Generator::new(Config::new().include_utilities());

    let output = generator.generate();
    assert!(output.contains("export type Prettify<T>"));
    assert!(output.contains("{ [K in keyof T]: T[K] }"));
}

#[test]
fn test_include_utilities_no_export() {
    let generator = Generator::new(
        Config::new().export_style(ExportStyle::Plain).include_utilities(),
    );

    let output = generator.generate();
    assert!(output.contains("type Prettify<T>"));
    assert!(!output.contains("export type Prettify"));
}

#[test]
fn test_no_utilities_by_default() {
    let generator = Generator::with_defaults();

    let output = generator.generate();
    assert!(!output.contains("Prettify"));
}

#[test]
fn test_convenience_generate() {
    // generate() with a primitive type
    let output = generate::<String>();
    // String is primitive, doesn't produce named types
    assert!(output.contains("// Generated by ferro-type-gen"));
}

#[test]
fn test_generate_orders_dependencies() {
    let mut generator = Generator::new(Config::new().export_style(ExportStyle::Plain));
    generator.add(named(
        "User",
        TypeDef::Object(vec![ferrotype::Field::new(
            "id",
            TypeDef::Ref("UserId".to_string()),
        )]),
    ));
    generator.add(named("UserId", TypeDef::Primitive(Primitive::String)));

    let output = generator.generate();
    let id_pos = output.find("type UserId = string;").unwrap();
    let user_pos = output.find("type User = ").unwrap();
    assert!(id_pos < user_pos);
}

#[test]
fn test_module_to_path() {
    assert_eq!(module_to_path("my_crate::models::user"), "models/user.ts");
    assert_eq!(module_to_path("my_crate::api"), "api.ts");
    assert_eq!(
        module_to_path("my_crate::nested::deep::module"),
        "nested/deep/module.ts"
    );
    assert_eq!(module_to_path("lonely"), "lonely.ts");
}

fn named_in_module(name: &str, module: &str, def: TypeDef) -> TypeDef {
    TypeDef::Named {
        namespace: vec![],
        name: name.to_string(),
        def: Box::new(def),
        module: Some(module.to_string()),
        wrapper: None,
    }
}

#[test]
fn test_types_by_module() {
    let mut generator = Generator::with_defaults();

    generator.add(named_in_module(
        "User",
        "my_crate::models",
        TypeDef::Primitive(Primitive::String),
    ));
    generator.add(named_in_module(
        "Post",
        "my_crate::models",
        TypeDef::Primitive(Primitive::String),
    ));
    generator.add(named_in_module(
        "Request",
        "my_crate::api",
        TypeDef::Primitive(Primitive::String),
    ));
    generator.add(named("Orphan", TypeDef::Primitive(Primitive::String)));

    let by_module = generator.types_by_module();

    assert_eq!(by_module.len(), 3);
    let models = by_module.iter().find(|g| g.0 == "my_crate::models").unwrap();
    assert!(models.1.contains(&"User".to_string()));
    assert!(models.1.contains(&"Post".to_string()));
    let api = by_module.iter().find(|g| g.0 == "my_crate::api").unwrap();
    assert!(api.1.contains(&"Request".to_string()));
    let default_group = by_module.iter().find(|g| g.0 == "default").unwrap();
    assert!(default_group.1.contains(&"Orphan".to_string()));
}

#[test]
fn test_generate_for_module() {
    let mut generator = Generator::with_defaults();

    generator.add(named_in_module(
        "User",
        "my_crate::models",
        TypeDef::Primitive(Primitive::String),
    ));
    generator.add(named_in_module(
        "Post",
        "my_crate::models",
        TypeDef::Primitive(Primitive::Number),
    ));

    let output = generator.generate_for_module(
        "my_crate::models",
        &vec!["User".to_string(), "Post".to_string()],
    );

    assert!(output.contains("// Module: my_crate::models"));
    assert!(output.contains("export type User = string;"));
    assert!(output.contains("export type Post = number;"));
}

#[test]
fn test_generate_for_module_filters_names() {
    let mut generator = Generator::with_defaults();
    generator.add(named_in_module("A", "c::x", TypeDef::Primitive(Primitive::String)));
    generator.add(named_in_module("B", "c::y", TypeDef::Primitive(Primitive::Number)));

    let output = generator.generate_for_module("c::x", &vec!["A".to_string()]);
    assert!(output.contains("export type A = string;"));
    assert!(!output.contains("type B"));
}
