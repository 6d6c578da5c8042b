//! Converting parsed TypeScript declaration modules to the IR.

use ferrotype::import::{
    TsEnumDecl, TsEnumInit, TsEnumMember, TsInterfaceDecl, TsKeyword, TsLit, TsProperty,
    TsTypeAliasDecl, TsTypeElement, TsTypeParamDecl,
};
use ferrotype::{convert_module, TsModule, TsModuleItem, TsType, TypeDef};

fn prop(name: &str, ty: TsType) -> TsTypeElement {
    TsTypeElement::Property(TsProperty {
        key: Some(name.to_string()),
        ann: Some(Box::new(ty)),
        optional: false,
        readonly: false,
    })
}

fn opt_prop(name: &str, ty: TsType) -> TsTypeElement {
    TsTypeElement::Property(TsProperty {
        key: Some(name.to_string()),
        ann: Some(Box::new(ty)),
        optional: true,
        readonly: false,
    })
}

fn kw(k: TsKeyword) -> TsType {
    TsType::Keyword(k)
}

fn iface(name: &str, body: Vec<TsTypeElement>) -> TsModuleItem {
    TsModuleItem::Interface(TsInterfaceDecl {
        name: name.to_string(),
        type_params: vec![],
        body,
    })
}

fn alias(name: &str, ann: TsType) -> TsModuleItem {
    TsModuleItem::TypeAlias(TsTypeAliasDecl {
        name: name.to_string(),
        type_params: vec![],
        ann,
    })
}

#[test]
fn test_convert_simple_interface() {
    // interface User { id: string; name: string; }
    let module = TsModule {
        body: vec![iface(
            "User",
            vec![prop("id", kw(TsKeyword::Str)), prop("name", kw(TsKeyword::Str))],
        )],
    };
    let types = convert_module(&module);

    assert_eq!(types.len(), 1);
    assert_eq!(types[0].name, "User");
    assert!(types[0].is_interface);
}

#[test]
fn test_convert_optional_field() {
    // interface Config { required: string; optional?: number; }
    let module = TsModule {
        body: vec![iface(
            "Config",
            vec![
                prop("required", kw(TsKeyword::Str)),
                opt_prop("optional", kw(TsKeyword::Num)),
            ],
        )],
    };
    let types = convert_module(&module);

    assert_eq!(types.len(), 1);
    if let TypeDef::Named { def, .. } = &types[0].typedef {
        if let TypeDef::Object(fields) = def.as_ref() {
            assert_eq!(fields.len(), 2);
            assert!(!fields[0].optional);
            assert!(fields[1].optional);
        } else {
            panic!("Expected Object typedef");
        }
    } else {
        panic!("Expected Named typedef");
    }
}

#[test]
fn test_convert_array_type() {
    // interface Container { items: string[]; }
    let module = TsModule {
        body: vec![iface(
            "Container",
            vec![prop("items", TsType::Array(Box::new(kw(TsKeyword::Str))))],
        )],
    };
    let types = convert_module(&module);

    assert_eq!(types.len(), 1);
    if let TypeDef::Named { def, .. } = &types[0].typedef {
        if let TypeDef::Object(fields) = def.as_ref() {
            assert!(matches!(fields[0].ty, TypeDef::Array(_)));
        }
    }
}

#[test]
fn test_convert_union_type() {
    // type Result = string | number;
    let module = TsModule {
        body: vec![alias(
            "Result",
            TsType::Union(vec![kw(TsKeyword::Str), kw(TsKeyword::Num)]),
        )],
    };
    let types = convert_module(&module);

    assert_eq!(types.len(), 1);
    if let TypeDef::Named { def, .. } = &types[0].typedef {
        assert!(matches!(def.as_ref(), TypeDef::Union(_)));
    }
}

#[test]
fn test_convert_type_alias() {
    // type UserId = string;
    let module = TsModule { body: vec![alias("UserId", kw(TsKeyword::Str))] };
    let types = convert_module(&module);

    assert_eq!(types.len(), 1);
    assert_eq!(types[0].name, "UserId");
    assert!(!types[0].is_interface);
}

#[test]
fn test_convert_literal_type() {
    // type Status = "active" | "inactive";
    let module = TsModule {
        body: vec![alias(
            "Status",
            TsType::Union(vec![
                TsType::Lit(TsLit::Str("active".to_string())),
                TsType::Lit(TsLit::Str("inactive".to_string())),
            ]),
        )],
    };
    let types = convert_module(&module);

    assert_eq!(types.len(), 1);
    if let TypeDef::Named { def, .. } = &types[0].typedef {
        if let TypeDef::Union(variants) = def.as_ref() {
            assert_eq!(variants.len(), 2);
            assert!(
                matches!(&variants[0], TypeDef::Literal(ferrotype::Literal::String(s)) if s == "active")
            );
        }
    }
}

#[test]
fn test_convert_generic_interface() {
    // interface Container<T> { value: T; }
    let module = TsModule {
        body: vec![TsModuleItem::Interface(TsInterfaceDecl {
            name: "Container".to_string(),
            type_params: vec![TsTypeParamDecl {
                name: "T".to_string(),
                constraint: None,
                default: None,
            }],
            body: vec![prop(
                "value",
                TsType::TypeRef { path: vec!["T".to_string()], args: vec![] },
            )],
        })],
    };
    let types = convert_module(&module);

    assert_eq!(types.len(), 1);
    assert!(matches!(&types[0].typedef, TypeDef::GenericDef { .. }));
}

#[test]
fn test_convert_ts_enum() {
    // enum Status { Active, Inactive, Pending }
    let module = TsModule {
        body: vec![TsModuleItem::Enum(TsEnumDecl {
            name: "Status".to_string(),
            members: vec![
                TsEnumMember { name: "Active".to_string(), init: None },
                TsEnumMember { name: "Inactive".to_string(), init: None },
                TsEnumMember { name: "Pending".to_string(), init: None },
            ],
        })],
    };
    let types = convert_module(&module);

    assert_eq!(types.len(), 1);
    assert_eq!(types[0].name, "Status");
    if let TypeDef::Named { def, .. } = &types[0].typedef {
        if let TypeDef::Union(variants) = def.as_ref() {
            assert_eq!(variants.len(), 3);
            assert!(
                matches!(&variants[0], TypeDef::Literal(ferrotype::Literal::String(s)) if s == "Active")
            );
        } else {
            panic!("Expected Union typedef");
        }
    } else {
        panic!("Expected Named typedef");
    }
}

#[test]
fn test_convert_ts_enum_with_string_values() {
    // enum Direction { Up = "UP", Down = "DOWN", Left = "LEFT", Right = "RIGHT" }
    let module = TsModule {
        body: vec![TsModuleItem::Enum(TsEnumDecl {
            name: "Direction".to_string(),
            members: vec![
                TsEnumMember {
                    name: "Up".to_string(),
                    init: Some(TsEnumInit::Str("UP".to_string())),
                },
                TsEnumMember {
                    name: "Down".to_string(),
                    init: Some(TsEnumInit::Str("DOWN".to_string())),
                },
                TsEnumMember {
                    name: "Left".to_string(),
                    init: Some(TsEnumInit::Str("LEFT".to_string())),
                },
                TsEnumMember {
                    name: "Right".to_string(),
                    init: Some(TsEnumInit::Str("RIGHT".to_string())),
                },
            ],
        })],
    };
    let types = convert_module(&module);

    assert_eq!(types.len(), 1);
    if let TypeDef::Named { def, .. } = &types[0].typedef {
        if let TypeDef::Union(variants) = def.as_ref() {
            assert_eq!(variants.len(), 4);
            assert!(
                matches!(&variants[0], TypeDef::Literal(ferrotype::Literal::String(s)) if s == "UP")
            );
        }
    }
}

#[test]
fn test_convert_qualified_and_builtin_refs() {
    // type M = Map<string, number>; plus a qualified reference.
    let module = TsModule {
        body: vec![
            alias(
                "M",
                TsType::TypeRef {
                    path: vec!["Map".to_string()],
                    args: vec![kw(TsKeyword::Str), kw(TsKeyword::Num)],
                },
            ),
            alias(
                "Q",
                TsType::TypeRef {
                    path: vec!["Ns".to_string(), "Inner".to_string()],
                    args: vec![],
                },
            ),
        ],
    };
    let types = convert_module(&module);
    assert_eq!(types.len(), 2);
    if let TypeDef::Named { def, .. } = &types[0].typedef {
        assert_eq!(def.render(), "Map<string, number>");
    }
    if let TypeDef::Named { def, .. } = &types[1].typedef {
        assert_eq!(def.render(), "Ns.Inner");
    }
}

#[test]
fn test_convert_skips_other_items() {
    let module = TsModule {
        body: vec![TsModuleItem::Other, alias("X", kw(TsKeyword::Bool)), TsModuleItem::Other],
    };
    let types = convert_module(&module);
    assert_eq!(types.len(), 1);
    assert_eq!(types[0].name, "X");
}
