//! Case conversion policies and the template pattern parser.

use ferrotype::{parse_template_pattern, to_camel_case, to_pascal_case, to_snake_case, RenameAll};

#[test]
fn test_rename_all_policies_on_user_id() {
    assert_eq!(RenameAll::CamelCase.apply("user_id"), "userId");
    assert_eq!(RenameAll::PascalCase.apply("user_id"), "UserId");
    assert_eq!(RenameAll::SnakeCase.apply("user_id"), "user_id");
    assert_eq!(RenameAll::ScreamingSnakeCase.apply("user_id"), "USER_ID");
    assert_eq!(RenameAll::KebabCase.apply("user_id"), "user-id");
    assert_eq!(RenameAll::ScreamingKebabCase.apply("user_id"), "USER-ID");
}

#[test]
fn test_case_conversion_from_camel() {
    assert_eq!(to_snake_case("userId"), "user_id");
    assert_eq!(to_snake_case("FirstVariant"), "first_variant");
    assert_eq!(to_camel_case("first_variant"), "firstVariant");
    assert_eq!(to_pascal_case("first_variant"), "FirstVariant");
}

#[test]
fn test_case_conversion_edge_cases() {
    assert_eq!(to_camel_case(""), "");
    assert_eq!(to_snake_case(""), "");
    assert_eq!(to_camel_case("_leading"), "Leading");
    assert_eq!(to_camel_case("a"), "a");
    assert_eq!(to_pascal_case("a"), "A");
    assert_eq!(to_snake_case("A"), "a");
}

#[test]
fn test_rename_all_from_str() {
    assert_eq!(RenameAll::from_str("camelCase"), Some(RenameAll::CamelCase));
    assert_eq!(RenameAll::from_str("PascalCase"), Some(RenameAll::PascalCase));
    assert_eq!(RenameAll::from_str("snake_case"), Some(RenameAll::SnakeCase));
    assert_eq!(
        RenameAll::from_str("SCREAMING_SNAKE_CASE"),
        Some(RenameAll::ScreamingSnakeCase)
    );
    assert_eq!(RenameAll::from_str("kebab-case"), Some(RenameAll::KebabCase));
    assert_eq!(
        RenameAll::from_str("SCREAMING-KEBAB-CASE"),
        Some(RenameAll::ScreamingKebabCase)
    );
    assert_eq!(RenameAll::from_str("UPPERCASE"), None);
    assert_eq!(RenameAll::from_str(""), None);
}

#[test]
fn test_parse_pattern_single_placeholder() {
    let (strings, types) = parse_template_pattern("vm-${string}").unwrap();
    assert_eq!(strings, vec!["vm-".to_string(), "".to_string()]);
    assert_eq!(types, vec!["string".to_string()]);
}

#[test]
fn test_parse_pattern_three_placeholders() {
    let (strings, types) = parse_template_pattern("v${number}.${number}.${number}").unwrap();
    assert_eq!(
        strings,
        vec![
            "v".to_string(),
            ".".to_string(),
            ".".to_string(),
            "".to_string()
        ]
    );
    assert_eq!(
        types,
        vec!["number".to_string(), "number".to_string(), "number".to_string()]
    );
}

#[test]
fn test_parse_pattern_no_placeholder() {
    let (strings, types) = parse_template_pattern("plain").unwrap();
    assert_eq!(strings, vec!["plain".to_string()]);
    assert!(types.is_empty());
}

#[test]
fn test_parse_pattern_nested_braces() {
    let (strings, types) = parse_template_pattern("x${a{b}c}y").unwrap();
    assert_eq!(strings, vec!["x".to_string(), "y".to_string()]);
    assert_eq!(types, vec!["a{b}c".to_string()]);
}

#[test]
fn test_parse_pattern_one_more_string_than_types() {
    let (strings, types) = parse_template_pattern("${TOPIC}::${ULID}").unwrap();
    assert_eq!(strings.len(), types.len() + 1);
    assert_eq!(strings, vec!["".to_string(), "::".to_string(), "".to_string()]);
    assert_eq!(types, vec!["TOPIC".to_string(), "ULID".to_string()]);
}

#[test]
fn test_parse_pattern_empty_placeholder_fails() {
    assert!(parse_template_pattern("x${}").is_err());
}

#[test]
fn test_parse_pattern_dollar_without_brace() {
    let (strings, types) = parse_template_pattern("a$b").unwrap();
    assert_eq!(strings, vec!["a$b".to_string()]);
    assert!(types.is_empty());
}
