//! Fixture types: a representative set of declared types, each stating
//! its exact TypeScript shape through the [`TypeScript`] trait.

use vstd::prelude::*;

use crate::ir::{
    lemma_view_field_seq, lemma_view_typedef_seq, view_field, view_field_seq, view_typedef,
    view_typedef_seq, Field, FieldV, Literal, LiteralV, Primitive, TypeDef, TypeDefV,
};
use crate::registry::TypeScript;
use std::collections::HashMap;

verus! {

/// A record with several primitive fields.
#[derive(Debug, Clone, PartialEq)]
pub struct User {
    pub id: u64,
    pub name: String,
    pub email: String,
    pub active: bool,
}

/// A record with optional fields.
#[derive(Debug, Clone, PartialEq)]
pub struct Profile {
    pub username: String,
    pub display_name: Option<String>,
    pub bio: Option<String>,
    pub avatar_url: Option<String>,
}

/// A tuple record.
#[derive(Debug, Clone, PartialEq)]
pub struct Rgb(pub u8, pub u8, pub u8);

/// A unit record.
#[derive(Debug, Clone, PartialEq)]
pub struct Ping;

/// A newtype wrapper.
#[derive(Debug, Clone, PartialEq)]
pub struct UserId(pub u64);

/// A record holding a string map.
#[derive(Debug, Clone)]
pub struct Config {
    pub settings: HashMap<String, String>,
}

/// A unit-variant enum.
#[derive(Debug, Clone, PartialEq)]
pub enum Status {
    Pending,
    Active,
    Completed,
    Failed,
}

/// A mixed-variant enum.
#[derive(Debug, Clone, PartialEq)]
pub enum Message {
    Ping,
    Text(String),
    Binary(Vec<u8>),
    Error { code: i32, message: String },
}

/// A typical request.
#[derive(Debug, Clone, PartialEq)]
pub struct GetUserRequest {
    pub user_id: u64,
}

/// A typical response.
#[derive(Debug, Clone, PartialEq)]
pub struct GetUserResponse {
    pub user: Option<User>,
}

/// A list request with pagination.
#[derive(Debug, Clone, PartialEq)]
pub struct ListUsersRequest {
    pub page: u32,
    pub per_page: u32,
    pub filter: Option<String>,
}

/// A list response with pagination metadata.
#[derive(Debug, Clone, PartialEq)]
pub struct ListUsersResponse {
    pub users: Vec<User>,
    pub total: u64,
    pub page: u32,
    pub per_page: u32,
}

/// A simple error record.
#[derive(Debug, Clone, PartialEq)]
pub struct ApiError {
    pub code: String,
    pub message: String,
}

/// A detailed error record with optional fields.
#[derive(Debug, Clone, PartialEq)]
pub struct DetailedError {
    pub code: String,
    pub message: String,
    pub details: Option<String>,
    pub field: Option<String>,
}

/// An error enum with record-shaped variants.
#[derive(Debug, Clone, PartialEq)]
pub enum RpcError {
    NotFound { resource: String },
    Unauthorized,
    Forbidden { reason: String },
    BadRequest { field: String, message: String },
    Internal,
}

/// A deeply nested record.
#[derive(Debug, Clone)]
pub struct Workspace {
    pub id: u64,
    pub name: String,
    pub owner: User,
    pub members: Vec<User>,
    pub settings: Config,
    pub status: Status,
}

/// A record exercising the common patterns at once.
#[derive(Debug, Clone)]
pub struct CompleteExample {
    pub primitive: i32,
    pub string: String,
    pub optional: Option<String>,
    pub list: Vec<i32>,
    pub map: HashMap<String, i32>,
    pub nested: User,
    pub nested_list: Vec<User>,
    pub optional_nested: Option<User>,
    pub status: Status,
}

/// A generic optional wrapper.
#[derive(Debug, Clone, PartialEq)]
pub enum OptionalValue<T> {
    Absent,
    Present(T),
}

/// A unit-variant enum declared through the conversion path.
#[derive(Debug, Clone, PartialEq)]
pub enum DerivedStatus {
    Pending,
    Active,
    Completed,
    Failed,
}

/// A mixed-variant enum declared through the conversion path.
#[derive(Debug, Clone, PartialEq)]
pub enum DerivedMessage {
    Ping,
    Text(String),
    Binary(Vec<u8>),
    Error { code: i32, message: String },
}

/// An error enum declared through the conversion path.
#[derive(Debug, Clone, PartialEq)]
pub enum DerivedRpcError {
    NotFound { resource: String },
    Unauthorized,
    Forbidden { reason: String },
    BadRequest { field: String, message: String },
    Internal,
}

impl TypeScript for User {
    open spec fn typescript_spec() -> TypeDefV {
        TypeDefV::Named {
            namespace: Seq::empty(),
            name: "User"@,
            def: Box::new(TypeDefV::Object(seq![FieldV { name: "id"@, ty: TypeDefV::Primitive(Primitive::Number), optional: false, readonly: false }, FieldV { name: "name"@, ty: TypeDefV::Primitive(Primitive::String), optional: false, readonly: false }, FieldV { name: "email"@, ty: TypeDefV::Primitive(Primitive::String), optional: false, readonly: false }, FieldV { name: "active"@, ty: TypeDefV::Primitive(Primitive::Boolean), optional: false, readonly: false }])),
            module: Option::None,
            wrapper: Option::None,
        }
    }

    fn typescript() -> (r: TypeDef) {
        let mut fs1: Vec<Field> = Vec::new();
        fs1.push(Field::new("id", TypeDef::Primitive(Primitive::Number)));
        fs1.push(Field::new("name", TypeDef::Primitive(Primitive::String)));
        fs1.push(Field::new("email", TypeDef::Primitive(Primitive::String)));
        fs1.push(Field::new("active", TypeDef::Primitive(Primitive::Boolean)));
        proof { lemma_view_field_seq(fs1@); assert(view_field_seq(fs1@) =~= seq![view_field(fs1@[0]), view_field(fs1@[1]), view_field(fs1@[2]), view_field(fs1@[3])]); }
        let inner = TypeDef::Object(fs1);
        let ghost inner_v = inner@;
        proof {
            assert(inner_v =~~= TypeDefV::Object(seq![FieldV { name: "id"@, ty: TypeDefV::Primitive(Primitive::Number), optional: false, readonly: false }, FieldV { name: "name"@, ty: TypeDefV::Primitive(Primitive::String), optional: false, readonly: false }, FieldV { name: "email"@, ty: TypeDefV::Primitive(Primitive::String), optional: false, readonly: false }, FieldV { name: "active"@, ty: TypeDefV::Primitive(Primitive::Boolean), optional: false, readonly: false }]));
        }
        let ns_vec: Vec<String> = Vec::new();
        proof {
            assert(crate::ir::view_string_seq(ns_vec@) =~= Seq::<Seq<char>>::empty());
        }
        let r = TypeDef::Named {
            namespace: ns_vec,
            name: "User".to_owned(),
            def: Box::new(inner),
            module: Option::None,
            wrapper: Option::None,
        };
        proof {
            assert(r@ =~~= Self::typescript_spec());
        }
        r
    }
}

impl TypeScript for Profile {
    open spec fn typescript_spec() -> TypeDefV {
        TypeDefV::Named {
            namespace: Seq::empty(),
            name: "Profile"@,
            def: Box::new(TypeDefV::Object(seq![FieldV { name: "username"@, ty: TypeDefV::Primitive(Primitive::String), optional: false, readonly: false }, FieldV { name: "display_name"@, ty: TypeDefV::Union(seq![TypeDefV::Primitive(Primitive::String), TypeDefV::Primitive(Primitive::Null)]), optional: false, readonly: false }, FieldV { name: "bio"@, ty: TypeDefV::Union(seq![TypeDefV::Primitive(Primitive::String), TypeDefV::Primitive(Primitive::Null)]), optional: false, readonly: false }, FieldV { name: "avatar_url"@, ty: TypeDefV::Union(seq![TypeDefV::Primitive(Primitive::String), TypeDefV::Primitive(Primitive::Null)]), optional: false, readonly: false }])),
            module: Option::None,
            wrapper: Option::None,
        }
    }

    fn typescript() -> (r: TypeDef) {
        let mut fs2: Vec<Field> = Vec::new();
        fs2.push(Field::new("username", TypeDef::Primitive(Primitive::String)));
        let mut us3: Vec<TypeDef> = Vec::new();
        us3.push(TypeDef::Primitive(Primitive::String));
        us3.push(TypeDef::Primitive(Primitive::Null));
        proof { lemma_view_typedef_seq(us3@); assert(view_typedef_seq(us3@) =~= seq![view_typedef(us3@[0]), view_typedef(us3@[1])]); }
        fs2.push(Field::new("display_name", TypeDef::Union(us3)));
        let mut us4: Vec<TypeDef> = Vec::new();
        us4.push(TypeDef::Primitive(Primitive::String));
        us4.push(TypeDef::Primitive(Primitive::Null));
        proof { lemma_view_typedef_seq(us4@); assert(view_typedef_seq(us4@) =~= seq![view_typedef(us4@[0]), view_typedef(us4@[1])]); }
        fs2.push(Field::new("bio", TypeDef::Union(us4)));
        let mut us5: Vec<TypeDef> = Vec::new();
        us5.push(TypeDef::Primitive(Primitive::String));
        us5.push(TypeDef::Primitive(Primitive::Null));
        proof { lemma_view_typedef_seq(us5@); assert(view_typedef_seq(us5@) =~= seq![view_typedef(us5@[0]), view_typedef(us5@[1])]); }
        fs2.push(Field::new("avatar_url", TypeDef::Union(us5)));
        proof { lemma_view_field_seq(fs2@); assert(view_field_seq(fs2@) =~= seq![view_field(fs2@[0]), view_field(fs2@[1]), view_field(fs2@[2]), view_field(fs2@[3])]); }
        let inner = TypeDef::Object(fs2);
        let ghost inner_v = inner@;
        proof {
            assert(inner_v =~~= TypeDefV::Object(seq![FieldV { name: "username"@, ty: TypeDefV::Primitive(Primitive::String), optional: false, readonly: false }, FieldV { name: "display_name"@, ty: TypeDefV::Union(seq![TypeDefV::Primitive(Primitive::String), TypeDefV::Primitive(Primitive::Null)]), optional: false, readonly: false }, FieldV { name: "bio"@, ty: TypeDefV::Union(seq![TypeDefV::Primitive(Primitive::String), TypeDefV::Primitive(Primitive::Null)]), optional: false, readonly: false }, FieldV { name: "avatar_url"@, ty: TypeDefV::Union(seq![TypeDefV::Primitive(Primitive::String), TypeDefV::Primitive(Primitive::Null)]), optional: false, readonly: false }]));
        }
        let ns_vec: Vec<String> = Vec::new();
        proof {
            assert(crate::ir::view_string_seq(ns_vec@) =~= Seq::<Seq<char>>::empty());
        }
        let r = TypeDef::Named {
            namespace: ns_vec,
            name: "Profile".to_owned(),
            def: Box::new(inner),
            module: Option::None,
            wrapper: Option::None,
        };
        proof {
            assert(r@ =~~= Self::typescript_spec());
        }
        r
    }
}

impl TypeScript for Rgb {
    open spec fn typescript_spec() -> TypeDefV {
        TypeDefV::Named {
            namespace: Seq::empty(),
            name: "Rgb"@,
            def: Box::new(TypeDefV::Tuple(seq![TypeDefV::Primitive(Primitive::Number), TypeDefV::Primitive(Primitive::Number), TypeDefV::Primitive(Primitive::Number)])),
            module: Option::None,
            wrapper: Option::None,
        }
    }

    fn typescript() -> (r: TypeDef) {
        let mut ts6: Vec<TypeDef> = Vec::new();
        ts6.push(TypeDef::Primitive(Primitive::Number));
        ts6.push(TypeDef::Primitive(Primitive::Number));
        ts6.push(TypeDef::Primitive(Primitive::Number));
        proof { lemma_view_typedef_seq(ts6@); assert(view_typedef_seq(ts6@) =~= seq![view_typedef(ts6@[0]), view_typedef(ts6@[1]), view_typedef(ts6@[2])]); }
        let inner = TypeDef::Tuple(ts6);
        let ghost inner_v = inner@;
        proof {
            assert(inner_v =~~= TypeDefV::Tuple(seq![TypeDefV::Primitive(Primitive::Number), TypeDefV::Primitive(Primitive::Number), TypeDefV::Primitive(Primitive::Number)]));
        }
        let ns_vec: Vec<String> = Vec::new();
        proof {
            assert(crate::ir::view_string_seq(ns_vec@) =~= Seq::<Seq<char>>::empty());
        }
        let r = TypeDef::Named {
            namespace: ns_vec,
            name: "Rgb".to_owned(),
            def: Box::new(inner),
            module: Option::None,
            wrapper: Option::None,
        };
        proof {
            assert(r@ =~~= Self::typescript_spec());
        }
        r
    }
}

impl TypeScript for Ping {
    open spec fn typescript_spec() -> TypeDefV {
        TypeDefV::Named {
            namespace: Seq::empty(),
            name: "Ping"@,
            def: Box::new(TypeDefV::Primitive(Primitive::Null)),
            module: Option::None,
            wrapper: Option::None,
        }
    }

    fn typescript() -> (r: TypeDef) {
        
        let inner = TypeDef::Primitive(Primitive::Null);
        let ghost inner_v = inner@;
        proof {
            assert(inner_v =~~= TypeDefV::Primitive(Primitive::Null));
        }
        let ns_vec: Vec<String> = Vec::new();
        proof {
            assert(crate::ir::view_string_seq(ns_vec@) =~= Seq::<Seq<char>>::empty());
        }
        let r = TypeDef::Named {
            namespace: ns_vec,
            name: "Ping".to_owned(),
            def: Box::new(inner),
            module: Option::None,
            wrapper: Option::None,
        };
        proof {
            assert(r@ =~~= Self::typescript_spec());
        }
        r
    }
}

impl TypeScript for UserId {
    open spec fn typescript_spec() -> TypeDefV {
        TypeDefV::Named {
            namespace: Seq::empty(),
            name: "UserId"@,
            def: Box::new(TypeDefV::Primitive(Primitive::Number)),
            module: Option::None,
            wrapper: Option::None,
        }
    }

    fn typescript() -> (r: TypeDef) {
        
        let inner = TypeDef::Primitive(Primitive::Number);
        let ghost inner_v = inner@;
        proof {
            assert(inner_v =~~= TypeDefV::Primitive(Primitive::Number));
        }
        let ns_vec: Vec<String> = Vec::new();
        proof {
            assert(crate::ir::view_string_seq(ns_vec@) =~= Seq::<Seq<char>>::empty());
        }
        let r = TypeDef::Named {
            namespace: ns_vec,
            name: "UserId".to_owned(),
            def: Box::new(inner),
            module: Option::None,
            wrapper: Option::None,
        };
        proof {
            assert(r@ =~~= Self::typescript_spec());
        }
        r
    }
}

impl TypeScript for Config {
    open spec fn typescript_spec() -> TypeDefV {
        TypeDefV::Named {
            namespace: Seq::empty(),
            name: "Config"@,
            def: Box::new(TypeDefV::Object(seq![FieldV { name: "settings"@, ty: TypeDefV::Record { key: Box::new(TypeDefV::Primitive(Primitive::String)), value: Box::new(TypeDefV::Primitive(Primitive::String)) }, optional: false, readonly: false }])),
            module: Option::None,
            wrapper: Option::None,
        }
    }

    fn typescript() -> (r: TypeDef) {
        let mut fs7: Vec<Field> = Vec::new();
        let rec8 = TypeDef::Record { key: Box::new(TypeDef::Primitive(Primitive::String)), value: Box::new(TypeDef::Primitive(Primitive::String)) };
        proof {
            match &rec8 {
                TypeDef::Record { key, value } => {
                    assert(view_typedef(**key) == TypeDefV::Primitive(Primitive::String));
                    assert(view_typedef(**value) == TypeDefV::Primitive(Primitive::String));
                    assert(rec8@ == TypeDefV::Record {
                        key: Box::new(view_typedef(**key)),
                        value: Box::new(view_typedef(**value)),
                    });
                }
                _ => {}
            }
            assert(rec8@ == TypeDefV::Record { key: Box::new(TypeDefV::Primitive(Primitive::String)), value: Box::new(TypeDefV::Primitive(Primitive::String)) });
        }
        fs7.push(Field::new("settings", rec8));
        proof { lemma_view_field_seq(fs7@); assert(view_field_seq(fs7@) =~= seq![view_field(fs7@[0])]); }
        let inner = TypeDef::Object(fs7);
        let ghost inner_v = inner@;
        proof {
            assert(inner_v =~~= TypeDefV::Object(seq![FieldV { name: "settings"@, ty: TypeDefV::Record { key: Box::new(TypeDefV::Primitive(Primitive::String)), value: Box::new(TypeDefV::Primitive(Primitive::String)) }, optional: false, readonly: false }]));
        }
        let ns_vec: Vec<String> = Vec::new();
        proof {
            assert(crate::ir::view_string_seq(ns_vec@) =~= Seq::<Seq<char>>::empty());
        }
        let r = TypeDef::Named {
            namespace: ns_vec,
            name: "Config".to_owned(),
            def: Box::new(inner),
            module: Option::None,
            wrapper: Option::None,
        };
        proof {
            assert(r@ =~~= Self::typescript_spec());
        }
        r
    }
}

impl TypeScript for Status {
    open spec fn typescript_spec() -> TypeDefV {
        TypeDefV::Named {
            namespace: Seq::empty(),
            name: "Status"@,
            def: Box::new(TypeDefV::Union(seq![TypeDefV::Literal(LiteralV::String("Pending"@)), TypeDefV::Literal(LiteralV::String("Active"@)), TypeDefV::Literal(LiteralV::String("Completed"@)), TypeDefV::Literal(LiteralV::String("Failed"@))])),
            module: Option::None,
            wrapper: Option::None,
        }
    }

    fn typescript() -> (r: TypeDef) {
        let mut us9: Vec<TypeDef> = Vec::new();
        us9.push(TypeDef::Literal(Literal::String("Pending".to_owned())));
        us9.push(TypeDef::Literal(Literal::String("Active".to_owned())));
        us9.push(TypeDef::Literal(Literal::String("Completed".to_owned())));
        us9.push(TypeDef::Literal(Literal::String("Failed".to_owned())));
        proof { lemma_view_typedef_seq(us9@); assert(view_typedef_seq(us9@) =~= seq![view_typedef(us9@[0]), view_typedef(us9@[1]), view_typedef(us9@[2]), view_typedef(us9@[3])]); }
        let inner = TypeDef::Union(us9);
        let ghost inner_v = inner@;
        proof {
            assert(inner_v =~~= TypeDefV::Union(seq![TypeDefV::Literal(LiteralV::String("Pending"@)), TypeDefV::Literal(LiteralV::String("Active"@)), TypeDefV::Literal(LiteralV::String("Completed"@)), TypeDefV::Literal(LiteralV::String("Failed"@))]));
        }
        let ns_vec: Vec<String> = Vec::new();
        proof {
            assert(crate::ir::view_string_seq(ns_vec@) =~= Seq::<Seq<char>>::empty());
        }
        let r = TypeDef::Named {
            namespace: ns_vec,
            name: "Status".to_owned(),
            def: Box::new(inner),
            module: Option::None,
            wrapper: Option::None,
        };
        proof {
            assert(r@ =~~= Self::typescript_spec());
        }
        r
    }
}

impl TypeScript for Message {
    open spec fn typescript_spec() -> TypeDefV {
        TypeDefV::Named {
            namespace: Seq::empty(),
            name: "Message"@,
            def: Box::new(TypeDefV::Union(seq![TypeDefV::Object(seq![FieldV { name: "type"@, ty: TypeDefV::Literal(LiteralV::String("Ping"@)), optional: false, readonly: false }]), TypeDefV::Object(seq![FieldV { name: "type"@, ty: TypeDefV::Literal(LiteralV::String("Text"@)), optional: false, readonly: false }, FieldV { name: "value"@, ty: TypeDefV::Primitive(Primitive::String), optional: false, readonly: false }]), TypeDefV::Object(seq![FieldV { name: "type"@, ty: TypeDefV::Literal(LiteralV::String("Binary"@)), optional: false, readonly: false }, FieldV { name: "value"@, ty: TypeDefV::Array(Box::new(TypeDefV::Primitive(Primitive::Number))), optional: false, readonly: false }]), TypeDefV::Object(seq![FieldV { name: "type"@, ty: TypeDefV::Literal(LiteralV::String("Error"@)), optional: false, readonly: false }, FieldV { name: "code"@, ty: TypeDefV::Primitive(Primitive::Number), optional: false, readonly: false }, FieldV { name: "message"@, ty: TypeDefV::Primitive(Primitive::String), optional: false, readonly: false }])])),
            module: Option::None,
            wrapper: Option::None,
        }
    }

    fn typescript() -> (r: TypeDef) {
        let mut us10: Vec<TypeDef> = Vec::new();
        let mut fs11: Vec<Field> = Vec::new();
        fs11.push(Field::new("type", TypeDef::Literal(Literal::String("Ping".to_owned()))));
        proof { lemma_view_field_seq(fs11@); assert(view_field_seq(fs11@) =~= seq![view_field(fs11@[0])]); }
        us10.push(TypeDef::Object(fs11));
        let mut fs12: Vec<Field> = Vec::new();
        fs12.push(Field::new("type", TypeDef::Literal(Literal::String("Text".to_owned()))));
        fs12.push(Field::new("value", TypeDef::Primitive(Primitive::String)));
        proof { lemma_view_field_seq(fs12@); assert(view_field_seq(fs12@) =~= seq![view_field(fs12@[0]), view_field(fs12@[1])]); }
        us10.push(TypeDef::Object(fs12));
        let mut fs13: Vec<Field> = Vec::new();
        fs13.push(Field::new("type", TypeDef::Literal(Literal::String("Binary".to_owned()))));
        let arr14 = TypeDef::Array(Box::new(TypeDef::Primitive(Primitive::Number)));
        proof {
            match &arr14 {
                TypeDef::Array(inner) => {
                    assert(view_typedef(**inner) == TypeDefV::Primitive(Primitive::Number));
                    assert(arr14@ == TypeDefV::Array(Box::new(view_typedef(**inner))));
                }
                _ => {}
            }
            assert(arr14@ == TypeDefV::Array(Box::new(TypeDefV::Primitive(Primitive::Number))));
        }
        fs13.push(Field::new("value", arr14));
        proof { lemma_view_field_seq(fs13@); assert(view_field_seq(fs13@) =~= seq![view_field(fs13@[0]), view_field(fs13@[1])]); }
        us10.push(TypeDef::Object(fs13));
        let mut fs15: Vec<Field> = Vec::new();
        fs15.push(Field::new("type", TypeDef::Literal(Literal::String("Error".to_owned()))));
        fs15.push(Field::new("code", TypeDef::Primitive(Primitive::Number)));
        fs15.push(Field::new("message", TypeDef::Primitive(Primitive::String)));
        proof { lemma_view_field_seq(fs15@); assert(view_field_seq(fs15@) =~= seq![view_field(fs15@[0]), view_field(fs15@[1]), view_field(fs15@[2])]); }
        us10.push(TypeDef::Object(fs15));
        proof { lemma_view_typedef_seq(us10@); assert(view_typedef_seq(us10@) =~= seq![view_typedef(us10@[0]), view_typedef(us10@[1]), view_typedef(us10@[2]), view_typedef(us10@[3])]); }
        let inner = TypeDef::Union(us10);
        let ghost inner_v = inner@;
        proof {
            assert(inner_v =~~= TypeDefV::Union(seq![TypeDefV::Object(seq![FieldV { name: "type"@, ty: TypeDefV::Literal(LiteralV::String("Ping"@)), optional: false, readonly: false }]), TypeDefV::Object(seq![FieldV { name: "type"@, ty: TypeDefV::Literal(LiteralV::String("Text"@)), optional: false, readonly: false }, FieldV { name: "value"@, ty: TypeDefV::Primitive(Primitive::String), optional: false, readonly: false }]), TypeDefV::Object(seq![FieldV { name: "type"@, ty: TypeDefV::Literal(LiteralV::String("Binary"@)), optional: false, readonly: false }, FieldV { name: "value"@, ty: TypeDefV::Array(Box::new(TypeDefV::Primitive(Primitive::Number))), optional: false, readonly: false }]), TypeDefV::Object(seq![FieldV { name: "type"@, ty: TypeDefV::Literal(LiteralV::String("Error"@)), optional: false, readonly: false }, FieldV { name: "code"@, ty: TypeDefV::Primitive(Primitive::Number), optional: false, readonly: false }, FieldV { name: "message"@, ty: TypeDefV::Primitive(Primitive::String), optional: false, readonly: false }])]));
        }
        let ns_vec: Vec<String> = Vec::new();
        proof {
            assert(crate::ir::view_string_seq(ns_vec@) =~= Seq::<Seq<char>>::empty());
        }
        let r = TypeDef::Named {
            namespace: ns_vec,
            name: "Message".to_owned(),
            def: Box::new(inner),
            module: Option::None,
            wrapper: Option::None,
        };
        proof {
            assert(r@ =~~= Self::typescript_spec());
        }
        r
    }
}

impl TypeScript for GetUserRequest {
    open spec fn typescript_spec() -> TypeDefV {
        TypeDefV::Named {
            namespace: Seq::empty(),
            name: "GetUserRequest"@,
            def: Box::new(TypeDefV::Object(seq![FieldV { name: "user_id"@, ty: TypeDefV::Primitive(Primitive::Number), optional: false, readonly: false }])),
            module: Option::None,
            wrapper: Option::None,
        }
    }

    fn typescript() -> (r: TypeDef) {
        let mut fs16: Vec<Field> = Vec::new();
        fs16.push(Field::new("user_id", TypeDef::Primitive(Primitive::Number)));
        proof { lemma_view_field_seq(fs16@); assert(view_field_seq(fs16@) =~= seq![view_field(fs16@[0])]); }
        let inner = TypeDef::Object(fs16);
        let ghost inner_v = inner@;
        proof {
            assert(inner_v =~~= TypeDefV::Object(seq![FieldV { name: "user_id"@, ty: TypeDefV::Primitive(Primitive::Number), optional: false, readonly: false }]));
        }
        let ns_vec: Vec<String> = Vec::new();
        proof {
            assert(crate::ir::view_string_seq(ns_vec@) =~= Seq::<Seq<char>>::empty());
        }
        let r = TypeDef::Named {
            namespace: ns_vec,
            name: "GetUserRequest".to_owned(),
            def: Box::new(inner),
            module: Option::None,
            wrapper: Option::None,
        };
        proof {
            assert(r@ =~~= Self::typescript_spec());
        }
        r
    }
}

impl TypeScript for GetUserResponse {
    open spec fn typescript_spec() -> TypeDefV {
        TypeDefV::Named {
            namespace: Seq::empty(),
            name: "GetUserResponse"@,
            def: Box::new(TypeDefV::Object(seq![FieldV { name: "user"@, ty: TypeDefV::Union(seq![TypeDefV::Ref("User"@), TypeDefV::Primitive(Primitive::Null)]), optional: false, readonly: false }])),
            module: Option::None,
            wrapper: Option::None,
        }
    }

    fn typescript() -> (r: TypeDef) {
        let mut fs17: Vec<Field> = Vec::new();
        let mut us18: Vec<TypeDef> = Vec::new();
        us18.push(TypeDef::Ref("User".to_owned()));
        us18.push(TypeDef::Primitive(Primitive::Null));
        proof { lemma_view_typedef_seq(us18@); assert(view_typedef_seq(us18@) =~= seq![view_typedef(us18@[0]), view_typedef(us18@[1])]); }
        fs17.push(Field::new("user", TypeDef::Union(us18)));
        proof { lemma_view_field_seq(fs17@); assert(view_field_seq(fs17@) =~= seq![view_field(fs17@[0])]); }
        let inner = TypeDef::Object(fs17);
        let ghost inner_v = inner@;
        proof {
            assert(inner_v =~~= TypeDefV::Object(seq![FieldV { name: "user"@, ty: TypeDefV::Union(seq![TypeDefV::Ref("User"@), TypeDefV::Primitive(Primitive::Null)]), optional: false, readonly: false }]));
        }
        let ns_vec: Vec<String> = Vec::new();
        proof {
            assert(crate::ir::view_string_seq(ns_vec@) =~= Seq::<Seq<char>>::empty());
        }
        let r = TypeDef::Named {
            namespace: ns_vec,
            name: "GetUserResponse".to_owned(),
            def: Box::new(inner),
            module: Option::None,
            wrapper: Option::None,
        };
        proof {
            assert(r@ =~~= Self::typescript_spec());
        }
        r
    }
}

impl TypeScript for ListUsersRequest {
    open spec fn typescript_spec() -> TypeDefV {
        TypeDefV::Named {
            namespace: Seq::empty(),
            name: "ListUsersRequest"@,
            def: Box::new(TypeDefV::Object(seq![FieldV { name: "page"@, ty: TypeDefV::Primitive(Primitive::Number), optional: false, readonly: false }, FieldV { name: "per_page"@, ty: TypeDefV::Primitive(Primitive::Number), optional: false, readonly: false }, FieldV { name: "filter"@, ty: TypeDefV::Union(seq![TypeDefV::Primitive(Primitive::String), TypeDefV::Primitive(Primitive::Null)]), optional: false, readonly: false }])),
            module: Option::None,
            wrapper: Option::None,
        }
    }

    fn typescript() -> (r: TypeDef) {
        let mut fs19: Vec<Field> = Vec::new();
        fs19.push(Field::new("page", TypeDef::Primitive(Primitive::Number)));
        fs19.push(Field::new("per_page", TypeDef::Primitive(Primitive::Number)));
        let mut us20: Vec<TypeDef> = Vec::new();
        us20.push(TypeDef::Primitive(Primitive::String));
        us20.push(TypeDef::Primitive(Primitive::Null));
        proof { lemma_view_typedef_seq(us20@); assert(view_typedef_seq(us20@) =~= seq![view_typedef(us20@[0]), view_typedef(us20@[1])]); }
        fs19.push(Field::new("filter", TypeDef::Union(us20)));
        proof { lemma_view_field_seq(fs19@); assert(view_field_seq(fs19@) =~= seq![view_field(fs19@[0]), view_field(fs19@[1]), view_field(fs19@[2])]); }
        let inner = TypeDef::Object(fs19);
        let ghost inner_v = inner@;
        proof {
            assert(inner_v =~~= TypeDefV::Object(seq![FieldV { name: "page"@, ty: TypeDefV::Primitive(Primitive::Number), optional: false, readonly: false }, FieldV { name: "per_page"@, ty: TypeDefV::Primitive(Primitive::Number), optional: false, readonly: false }, FieldV { name: "filter"@, ty: TypeDefV::Union(seq![TypeDefV::Primitive(Primitive::String), TypeDefV::Primitive(Primitive::Null)]), optional: false, readonly: false }]));
        }
        let ns_vec: Vec<String> = Vec::new();
        proof {
            assert(crate::ir::view_string_seq(ns_vec@) =~= Seq::<Seq<char>>::empty());
        }
        let r = TypeDef::Named {
            namespace: ns_vec,
            name: "ListUsersRequest".to_owned(),
            def: Box::new(inner),
            module: Option::None,
            wrapper: Option::None,
        };
        proof {
            assert(r@ =~~= Self::typescript_spec());
        }
        r
    }
}

impl TypeScript for ListUsersResponse {
    open spec fn typescript_spec() -> TypeDefV {
        TypeDefV::Named {
            namespace: Seq::empty(),
            name: "ListUsersResponse"@,
            def: Box::new(TypeDefV::Object(seq![FieldV { name: "users"@, ty: TypeDefV::Array(Box::new(TypeDefV::Ref("User"@))), optional: false, readonly: false }, FieldV { name: "total"@, ty: TypeDefV::Primitive(Primitive::Number), optional: false, readonly: false }, FieldV { name: "page"@, ty: TypeDefV::Primitive(Primitive::Number), optional: false, readonly: false }, FieldV { name: "per_page"@, ty: TypeDefV::Primitive(Primitive::Number), optional: false, readonly: false }])),
            module: Option::None,
            wrapper: Option::None,
        }
    }

    fn typescript() -> (r: TypeDef) {
        let mut fs21: Vec<Field> = Vec::new();
        let arr22 = TypeDef::Array(Box::new(TypeDef::Ref("User".to_owned())));
        proof {
            match &arr22 {
                TypeDef::Array(inner) => {
                    assert(view_typedef(**inner) == TypeDefV::Ref("User"@));
                    assert(arr22@ == TypeDefV::Array(Box::new(view_typedef(**inner))));
                }
                _ => {}
            }
            assert(arr22@ == TypeDefV::Array(Box::new(TypeDefV::Ref("User"@))));
        }
        fs21.push(Field::new("users", arr22));
        fs21.push(Field::new("total", TypeDef::Primitive(Primitive::Number)));
        fs21.push(Field::new("page", TypeDef::Primitive(Primitive::Number)));
        fs21.push(Field::new("per_page", TypeDef::Primitive(Primitive::Number)));
        proof { lemma_view_field_seq(fs21@); assert(view_field_seq(fs21@) =~= seq![view_field(fs21@[0]), view_field(fs21@[1]), view_field(fs21@[2]), view_field(fs21@[3])]); }
        let inner = TypeDef::Object(fs21);
        let ghost inner_v = inner@;
        proof {
            assert(inner_v =~~= TypeDefV::Object(seq![FieldV { name: "users"@, ty: TypeDefV::Array(Box::new(TypeDefV::Ref("User"@))), optional: false, readonly: false }, FieldV { name: "total"@, ty: TypeDefV::Primitive(Primitive::Number), optional: false, readonly: false }, FieldV { name: "page"@, ty: TypeDefV::Primitive(Primitive::Number), optional: false, readonly: false }, FieldV { name: "per_page"@, ty: TypeDefV::Primitive(Primitive::Number), optional: false, readonly: false }]));
        }
        let ns_vec: Vec<String> = Vec::new();
        proof {
            assert(crate::ir::view_string_seq(ns_vec@) =~= Seq::<Seq<char>>::empty());
        }
        let r = TypeDef::Named {
            namespace: ns_vec,
            name: "ListUsersResponse".to_owned(),
            def: Box::new(inner),
            module: Option::None,
            wrapper: Option::None,
        };
        proof {
            assert(r@ =~~= Self::typescript_spec());
        }
        r
    }
}

impl TypeScript for ApiError {
    open spec fn typescript_spec() -> TypeDefV {
        TypeDefV::Named {
            namespace: Seq::empty(),
            name: "ApiError"@,
            def: Box::new(TypeDefV::Object(seq![FieldV { name: "code"@, ty: TypeDefV::Primitive(Primitive::String), optional: false, readonly: false }, FieldV { name: "message"@, ty: TypeDefV::Primitive(Primitive::String), optional: false, readonly: false }])),
            module: Option::None,
            wrapper: Option::None,
        }
    }

    fn typescript() -> (r: TypeDef) {
        let mut fs23: Vec<Field> = Vec::new();
        fs23.push(Field::new("code", TypeDef::Primitive(Primitive::String)));
        fs23.push(Field::new("message", TypeDef::Primitive(Primitive::String)));
        proof { lemma_view_field_seq(fs23@); assert(view_field_seq(fs23@) =~= seq![view_field(fs23@[0]), view_field(fs23@[1])]); }
        let inner = TypeDef::Object(fs23);
        let ghost inner_v = inner@;
        proof {
            assert(inner_v =~~= TypeDefV::Object(seq![FieldV { name: "code"@, ty: TypeDefV::Primitive(Primitive::String), optional: false, readonly: false }, FieldV { name: "message"@, ty: TypeDefV::Primitive(Primitive::String), optional: false, readonly: false }]));
        }
        let ns_vec: Vec<String> = Vec::new();
        proof {
            assert(crate::ir::view_string_seq(ns_vec@) =~= Seq::<Seq<char>>::empty());
        }
        let r = TypeDef::Named {
            namespace: ns_vec,
            name: "ApiError".to_owned(),
            def: Box::new(inner),
            module: Option::None,
            wrapper: Option::None,
        };
        proof {
            assert(r@ =~~= Self::typescript_spec());
        }
        r
    }
}

impl TypeScript for DetailedError {
    open spec fn typescript_spec() -> TypeDefV {
        TypeDefV::Named {
            namespace: Seq::empty(),
            name: "DetailedError"@,
            def: Box::new(TypeDefV::Object(seq![FieldV { name: "code"@, ty: TypeDefV::Primitive(Primitive::String), optional: false, readonly: false }, FieldV { name: "message"@, ty: TypeDefV::Primitive(Primitive::String), optional: false, readonly: false }, FieldV { name: "details"@, ty: TypeDefV::Union(seq![TypeDefV::Primitive(Primitive::String), TypeDefV::Primitive(Primitive::Null)]), optional: false, readonly: false }, FieldV { name: "field"@, ty: TypeDefV::Union(seq![TypeDefV::Primitive(Primitive::String), TypeDefV::Primitive(Primitive::Null)]), optional: false, readonly: false }])),
            module: Option::None,
            wrapper: Option::None,
        }
    }

    fn typescript() -> (r: TypeDef) {
        let mut fs24: Vec<Field> = Vec::new();
        fs24.push(Field::new("code", TypeDef::Primitive(Primitive::String)));
        fs24.push(Field::new("message", TypeDef::Primitive(Primitive::String)));
        let mut us25: Vec<TypeDef> = Vec::new();
        us25.push(TypeDef::Primitive(Primitive::String));
        us25.push(TypeDef::Primitive(Primitive::Null));
        proof { lemma_view_typedef_seq(us25@); assert(view_typedef_seq(us25@) =~= seq![view_typedef(us25@[0]), view_typedef(us25@[1])]); }
        fs24.push(Field::new("details", TypeDef::Union(us25)));
        let mut us26: Vec<TypeDef> = Vec::new();
        us26.push(TypeDef::Primitive(Primitive::String));
        us26.push(TypeDef::Primitive(Primitive::Null));
        proof { lemma_view_typedef_seq(us26@); assert(view_typedef_seq(us26@) =~= seq![view_typedef(us26@[0]), view_typedef(us26@[1])]); }
        fs24.push(Field::new("field", TypeDef::Union(us26)));
        proof { lemma_view_field_seq(fs24@); assert(view_field_seq(fs24@) =~= seq![view_field(fs24@[0]), view_field(fs24@[1]), view_field(fs24@[2]), view_field(fs24@[3])]); }
        let inner = TypeDef::Object(fs24);
        let ghost inner_v = inner@;
        proof {
            assert(inner_v =~~= TypeDefV::Object(seq![FieldV { name: "code"@, ty: TypeDefV::Primitive(Primitive::String), optional: false, readonly: false }, FieldV { name: "message"@, ty: TypeDefV::Primitive(Primitive::String), optional: false, readonly: false }, FieldV { name: "details"@, ty: TypeDefV::Union(seq![TypeDefV::Primitive(Primitive::String), TypeDefV::Primitive(Primitive::Null)]), optional: false, readonly: false }, FieldV { name: "field"@, ty: TypeDefV::Union(seq![TypeDefV::Primitive(Primitive::String), TypeDefV::Primitive(Primitive::Null)]), optional: false, readonly: false }]));
        }
        let ns_vec: Vec<String> = Vec::new();
        proof {
            assert(crate::ir::view_string_seq(ns_vec@) =~= Seq::<Seq<char>>::empty());
        }
        let r = TypeDef::Named {
            namespace: ns_vec,
            name: "DetailedError".to_owned(),
            def: Box::new(inner),
            module: Option::None,
            wrapper: Option::None,
        };
        proof {
            assert(r@ =~~= Self::typescript_spec());
        }
        r
    }
}

impl TypeScript for RpcError {
    open spec fn typescript_spec() -> TypeDefV {
        TypeDefV::Named {
            namespace: Seq::empty(),
            name: "RpcError"@,
            def: Box::new(TypeDefV::Union(seq![TypeDefV::Object(seq![FieldV { name: "type"@, ty: TypeDefV::Literal(LiteralV::String("NotFound"@)), optional: false, readonly: false }, FieldV { name: "resource"@, ty: TypeDefV::Primitive(Primitive::String), optional: false, readonly: false }]), TypeDefV::Object(seq![FieldV { name: "type"@, ty: TypeDefV::Literal(LiteralV::String("Unauthorized"@)), optional: false, readonly: false }]), TypeDefV::Object(seq![FieldV { name: "type"@, ty: TypeDefV::Literal(LiteralV::String("Forbidden"@)), optional: false, readonly: false }, FieldV { name: "reason"@, ty: TypeDefV::Primitive(Primitive::String), optional: false, readonly: false }]), TypeDefV::Object(seq![FieldV { name: "type"@, ty: TypeDefV::Literal(LiteralV::String("BadRequest"@)), optional: false, readonly: false }, FieldV { name: "field"@, ty: TypeDefV::Primitive(Primitive::String), optional: false, readonly: false }, FieldV { name: "message"@, ty: TypeDefV::Primitive(Primitive::String), optional: false, readonly: false }]), TypeDefV::Object(seq![FieldV { name: "type"@, ty: TypeDefV::Literal(LiteralV::String("Internal"@)), optional: false, readonly: false }])])),
            module: Option::None,
            wrapper: Option::None,
        }
    }

    fn typescript() -> (r: TypeDef) {
        let mut us27: Vec<TypeDef> = Vec::new();
        let mut fs28: Vec<Field> = Vec::new();
        fs28.push(Field::new("type", TypeDef::Literal(Literal::String("NotFound".to_owned()))));
        fs28.push(Field::new("resource", TypeDef::Primitive(Primitive::String)));
        proof { lemma_view_field_seq(fs28@); assert(view_field_seq(fs28@) =~= seq![view_field(fs28@[0]), view_field(fs28@[1])]); }
        us27.push(TypeDef::Object(fs28));
        let mut fs29: Vec<Field> = Vec::new();
        fs29.push(Field::new("type", TypeDef::Literal(Literal::String("Unauthorized".to_owned()))));
        proof { lemma_view_field_seq(fs29@); assert(view_field_seq(fs29@) =~= seq![view_field(fs29@[0])]); }
        us27.push(TypeDef::Object(fs29));
        let mut fs30: Vec<Field> = Vec::new();
        fs30.push(Field::new("type", TypeDef::Literal(Literal::String("Forbidden".to_owned()))));
        fs30.push(Field::new("reason", TypeDef::Primitive(Primitive::String)));
        proof { lemma_view_field_seq(fs30@); assert(view_field_seq(fs30@) =~= seq![view_field(fs30@[0]), view_field(fs30@[1])]); }
        us27.push(TypeDef::Object(fs30));
        let mut fs31: Vec<Field> = Vec::new();
        fs31.push(Field::new("type", TypeDef::Literal(Literal::String("BadRequest".to_owned()))));
        fs31.push(Field::new("field", TypeDef::Primitive(Primitive::String)));
        fs31.push(Field::new("message", TypeDef::Primitive(Primitive::String)));
        proof { lemma_view_field_seq(fs31@); assert(view_field_seq(fs31@) =~= seq![view_field(fs31@[0]), view_field(fs31@[1]), view_field(fs31@[2])]); }
        us27.push(TypeDef::Object(fs31));
        let mut fs32: Vec<Field> = Vec::new();
        fs32.push(Field::new("type", TypeDef::Literal(Literal::String("Internal".to_owned()))));
        proof { lemma_view_field_seq(fs32@); assert(view_field_seq(fs32@) =~= seq![view_field(fs32@[0])]); }
        us27.push(TypeDef::Object(fs32));
        proof { lemma_view_typedef_seq(us27@); assert(view_typedef_seq(us27@) =~= seq![view_typedef(us27@[0]), view_typedef(us27@[1]), view_typedef(us27@[2]), view_typedef(us27@[3]), view_typedef(us27@[4])]); }
        let inner = TypeDef::Union(us27);
        let ghost inner_v = inner@;
        proof {
            assert(inner_v =~~= TypeDefV::Union(seq![TypeDefV::Object(seq![FieldV { name: "type"@, ty: TypeDefV::Literal(LiteralV::String("NotFound"@)), optional: false, readonly: false }, FieldV { name: "resource"@, ty: TypeDefV::Primitive(Primitive::String), optional: false, readonly: false }]), TypeDefV::Object(seq![FieldV { name: "type"@, ty: TypeDefV::Literal(LiteralV::String("Unauthorized"@)), optional: false, readonly: false }]), TypeDefV::Object(seq![FieldV { name: "type"@, ty: TypeDefV::Literal(LiteralV::String("Forbidden"@)), optional: false, readonly: false }, FieldV { name: "reason"@, ty: TypeDefV::Primitive(Primitive::String), optional: false, readonly: false }]), TypeDefV::Object(seq![FieldV { name: "type"@, ty: TypeDefV::Literal(LiteralV::String("BadRequest"@)), optional: false, readonly: false }, FieldV { name: "field"@, ty: TypeDefV::Primitive(Primitive::String), optional: false, readonly: false }, FieldV { name: "message"@, ty: TypeDefV::Primitive(Primitive::String), optional: false, readonly: false }]), TypeDefV::Object(seq![FieldV { name: "type"@, ty: TypeDefV::Literal(LiteralV::String("Internal"@)), optional: false, readonly: false }])]));
        }
        let ns_vec: Vec<String> = Vec::new();
        proof {
            assert(crate::ir::view_string_seq(ns_vec@) =~= Seq::<Seq<char>>::empty());
        }
        let r = TypeDef::Named {
            namespace: ns_vec,
            name: "RpcError".to_owned(),
            def: Box::new(inner),
            module: Option::None,
            wrapper: Option::None,
        };
        proof {
            assert(r@ =~~= Self::typescript_spec());
        }
        r
    }
}

impl TypeScript for DerivedStatus {
    open spec fn typescript_spec() -> TypeDefV {
        TypeDefV::Named {
            namespace: Seq::empty(),
            name: "DerivedStatus"@,
            def: Box::new(TypeDefV::Union(seq![TypeDefV::Literal(LiteralV::String("Pending"@)), TypeDefV::Literal(LiteralV::String("Active"@)), TypeDefV::Literal(LiteralV::String("Completed"@)), TypeDefV::Literal(LiteralV::String("Failed"@))])),
            module: Option::Some("ferrotype::fixtures"@),
            wrapper: Option::None,
        }
    }

    fn typescript() -> (r: TypeDef) {
        let mut us33: Vec<TypeDef> = Vec::new();
        us33.push(TypeDef::Literal(Literal::String("Pending".to_owned())));
        us33.push(TypeDef::Literal(Literal::String("Active".to_owned())));
        us33.push(TypeDef::Literal(Literal::String("Completed".to_owned())));
        us33.push(TypeDef::Literal(Literal::String("Failed".to_owned())));
        proof { lemma_view_typedef_seq(us33@); assert(view_typedef_seq(us33@) =~= seq![view_typedef(us33@[0]), view_typedef(us33@[1]), view_typedef(us33@[2]), view_typedef(us33@[3])]); }
        let inner = TypeDef::Union(us33);
        let ghost inner_v = inner@;
        proof {
            assert(inner_v =~~= TypeDefV::Union(seq![TypeDefV::Literal(LiteralV::String("Pending"@)), TypeDefV::Literal(LiteralV::String("Active"@)), TypeDefV::Literal(LiteralV::String("Completed"@)), TypeDefV::Literal(LiteralV::String("Failed"@))]));
        }
        let ns_vec: Vec<String> = Vec::new();
        proof {
            assert(crate::ir::view_string_seq(ns_vec@) =~= Seq::<Seq<char>>::empty());
        }
        let r = TypeDef::Named {
            namespace: ns_vec,
            name: "DerivedStatus".to_owned(),
            def: Box::new(inner),
            module: Option::Some("ferrotype::fixtures".to_owned()),
            wrapper: Option::None,
        };
        proof {
            assert(r@ =~~= Self::typescript_spec());
        }
        r
    }
}

impl TypeScript for DerivedMessage {
    open spec fn typescript_spec() -> TypeDefV {
        TypeDefV::Named {
            namespace: Seq::empty(),
            name: "DerivedMessage"@,
            def: Box::new(TypeDefV::Union(seq![TypeDefV::Object(seq![FieldV { name: "type"@, ty: TypeDefV::Literal(LiteralV::String("Ping"@)), optional: false, readonly: false }]), TypeDefV::Object(seq![FieldV { name: "type"@, ty: TypeDefV::Literal(LiteralV::String("Text"@)), optional: false, readonly: false }, FieldV { name: "value"@, ty: TypeDefV::Primitive(Primitive::String), optional: false, readonly: false }]), TypeDefV::Object(seq![FieldV { name: "type"@, ty: TypeDefV::Literal(LiteralV::String("Binary"@)), optional: false, readonly: false }, FieldV { name: "value"@, ty: TypeDefV::Array(Box::new(TypeDefV::Primitive(Primitive::Number))), optional: false, readonly: false }]), TypeDefV::Object(seq![FieldV { name: "type"@, ty: TypeDefV::Literal(LiteralV::String("Error"@)), optional: false, readonly: false }, FieldV { name: "code"@, ty: TypeDefV::Primitive(Primitive::Number), optional: false, readonly: false }, FieldV { name: "message"@, ty: TypeDefV::Primitive(Primitive::String), optional: false, readonly: false }])])),
            module: Option::Some("ferrotype::fixtures"@),
            wrapper: Option::None,
        }
    }

    fn typescript() -> (r: TypeDef) {
        let mut us34: Vec<TypeDef> = Vec::new();
        let mut fs35: Vec<Field> = Vec::new();
        fs35.push(Field::new("type", TypeDef::Literal(Literal::String("Ping".to_owned()))));
        proof { lemma_view_field_seq(fs35@); assert(view_field_seq(fs35@) =~= seq![view_field(fs35@[0])]); }
        us34.push(TypeDef::Object(fs35));
        let mut fs36: Vec<Field> = Vec::new();
        fs36.push(Field::new("type", TypeDef::Literal(Literal::String("Text".to_owned()))));
        fs36.push(Field::new("value", TypeDef::Primitive(Primitive::String)));
        proof { lemma_view_field_seq(fs36@); assert(view_field_seq(fs36@) =~= seq![view_field(fs36@[0]), view_field(fs36@[1])]); }
        us34.push(TypeDef::Object(fs36));
        let mut fs37: Vec<Field> = Vec::new();
        fs37.push(Field::new("type", TypeDef::Literal(Literal::String("Binary".to_owned()))));
        let arr38 = TypeDef::Array(Box::new(TypeDef::Primitive(Primitive::Number)));
        proof {
            match &arr38 {
                TypeDef::Array(inner) => {
                    assert(view_typedef(**inner) == TypeDefV::Primitive(Primitive::Number));
                    assert(arr38@ == TypeDefV::Array(Box::new(view_typedef(**inner))));
                }
                _ => {}
            }
            assert(arr38@ == TypeDefV::Array(Box::new(TypeDefV::Primitive(Primitive::Number))));
        }
        fs37.push(Field::new("value", arr38));
        proof { lemma_view_field_seq(fs37@); assert(view_field_seq(fs37@) =~= seq![view_field(fs37@[0]), view_field(fs37@[1])]); }
        us34.push(TypeDef::Object(fs37));
        let mut fs39: Vec<Field> = Vec::new();
        fs39.push(Field::new("type", TypeDef::Literal(Literal::String("Error".to_owned()))));
        fs39.push(Field::new("code", TypeDef::Primitive(Primitive::Number)));
        fs39.push(Field::new("message", TypeDef::Primitive(Primitive::String)));
        proof { lemma_view_field_seq(fs39@); assert(view_field_seq(fs39@) =~= seq![view_field(fs39@[0]), view_field(fs39@[1]), view_field(fs39@[2])]); }
        us34.push(TypeDef::Object(fs39));
        proof { lemma_view_typedef_seq(us34@); assert(view_typedef_seq(us34@) =~= seq![view_typedef(us34@[0]), view_typedef(us34@[1]), view_typedef(us34@[2]), view_typedef(us34@[3])]); }
        let inner = TypeDef::Union(us34);
        let ghost inner_v = inner@;
        proof {
            assert(inner_v =~~= TypeDefV::Union(seq![TypeDefV::Object(seq![FieldV { name: "type"@, ty: TypeDefV::Literal(LiteralV::String("Ping"@)), optional: false, readonly: false }]), TypeDefV::Object(seq![FieldV { name: "type"@, ty: TypeDefV::Literal(LiteralV::String("Text"@)), optional: false, readonly: false }, FieldV { name: "value"@, ty: TypeDefV::Primitive(Primitive::String), optional: false, readonly: false }]), TypeDefV::Object(seq![FieldV { name: "type"@, ty: TypeDefV::Literal(LiteralV::String("Binary"@)), optional: false, readonly: false }, FieldV { name: "value"@, ty: TypeDefV::Array(Box::new(TypeDefV::Primitive(Primitive::Number))), optional: false, readonly: false }]), TypeDefV::Object(seq![FieldV { name: "type"@, ty: TypeDefV::Literal(LiteralV::String("Error"@)), optional: false, readonly: false }, FieldV { name: "code"@, ty: TypeDefV::Primitive(Primitive::Number), optional: false, readonly: false }, FieldV { name: "message"@, ty: TypeDefV::Primitive(Primitive::String), optional: false, readonly: false }])]));
        }
        let ns_vec: Vec<String> = Vec::new();
        proof {
            assert(crate::ir::view_string_seq(ns_vec@) =~= Seq::<Seq<char>>::empty());
        }
        let r = TypeDef::Named {
            namespace: ns_vec,
            name: "DerivedMessage".to_owned(),
            def: Box::new(inner),
            module: Option::Some("ferrotype::fixtures".to_owned()),
            wrapper: Option::None,
        };
        proof {
            assert(r@ =~~= Self::typescript_spec());
        }
        r
    }
}

impl TypeScript for DerivedRpcError {
    open spec fn typescript_spec() -> TypeDefV {
        TypeDefV::Named {
            namespace: Seq::empty(),
            name: "DerivedRpcError"@,
            def: Box::new(TypeDefV::Union(seq![TypeDefV::Object(seq![FieldV { name: "type"@, ty: TypeDefV::Literal(LiteralV::String("NotFound"@)), optional: false, readonly: false }, FieldV { name: "resource"@, ty: TypeDefV::Primitive(Primitive::String), optional: false, readonly: false }]), TypeDefV::Object(seq![FieldV { name: "type"@, ty: TypeDefV::Literal(LiteralV::String("Unauthorized"@)), optional: false, readonly: false }]), TypeDefV::Object(seq![FieldV { name: "type"@, ty: TypeDefV::Literal(LiteralV::String("Forbidden"@)), optional: false, readonly: false }, FieldV { name: "reason"@, ty: TypeDefV::Primitive(Primitive::String), optional: false, readonly: false }]), TypeDefV::Object(seq![FieldV { name: "type"@, ty: TypeDefV::Literal(LiteralV::String("BadRequest"@)), optional: false, readonly: false }, FieldV { name: "field"@, ty: TypeDefV::Primitive(Primitive::String), optional: false, readonly: false }, FieldV { name: "message"@, ty: TypeDefV::Primitive(Primitive::String), optional: false, readonly: false }]), TypeDefV::Object(seq![FieldV { name: "type"@, ty: TypeDefV::Literal(LiteralV::String("Internal"@)), optional: false, readonly: false }])])),
            module: Option::Some("ferrotype::fixtures"@),
            wrapper: Option::None,
        }
    }

    fn typescript() -> (r: TypeDef) {
        let mut us40: Vec<TypeDef> = Vec::new();
        let mut fs41: Vec<Field> = Vec::new();
        fs41.push(Field::new("type", TypeDef::Literal(Literal::String("NotFound".to_owned()))));
        fs41.push(Field::new("resource", TypeDef::Primitive(Primitive::String)));
        proof { lemma_view_field_seq(fs41@); assert(view_field_seq(fs41@) =~= seq![view_field(fs41@[0]), view_field(fs41@[1])]); }
        us40.push(TypeDef::Object(fs41));
        let mut fs42: Vec<Field> = Vec::new();
        fs42.push(Field::new("type", TypeDef::Literal(Literal::String("Unauthorized".to_owned()))));
        proof { lemma_view_field_seq(fs42@); assert(view_field_seq(fs42@) =~= seq![view_field(fs42@[0])]); }
        us40.push(TypeDef::Object(fs42));
        let mut fs43: Vec<Field> = Vec::new();
        fs43.push(Field::new("type", TypeDef::Literal(Literal::String("Forbidden".to_owned()))));
        fs43.push(Field::new("reason", TypeDef::Primitive(Primitive::String)));
        proof { lemma_view_field_seq(fs43@); assert(view_field_seq(fs43@) =~= seq![view_field(fs43@[0]), view_field(fs43@[1])]); }
        us40.push(TypeDef::Object(fs43));
        let mut fs44: Vec<Field> = Vec::new();
        fs44.push(Field::new("type", TypeDef::Literal(Literal::String("BadRequest".to_owned()))));
        fs44.push(Field::new("field", TypeDef::Primitive(Primitive::String)));
        fs44.push(Field::new("message", TypeDef::Primitive(Primitive::String)));
        proof { lemma_view_field_seq(fs44@); assert(view_field_seq(fs44@) =~= seq![view_field(fs44@[0]), view_field(fs44@[1]), view_field(fs44@[2])]); }
        us40.push(TypeDef::Object(fs44));
        let mut fs45: Vec<Field> = Vec::new();
        fs45.push(Field::new("type", TypeDef::Literal(Literal::String("Internal".to_owned()))));
        proof { lemma_view_field_seq(fs45@); assert(view_field_seq(fs45@) =~= seq![view_field(fs45@[0])]); }
        us40.push(TypeDef::Object(fs45));
        proof { lemma_view_typedef_seq(us40@); assert(view_typedef_seq(us40@) =~= seq![view_typedef(us40@[0]), view_typedef(us40@[1]), view_typedef(us40@[2]), view_typedef(us40@[3]), view_typedef(us40@[4])]); }
        let inner = TypeDef::Union(us40);
        let ghost inner_v = inner@;
        proof {
            assert(inner_v =~~= TypeDefV::Union(seq![TypeDefV::Object(seq![FieldV { name: "type"@, ty: TypeDefV::Literal(LiteralV::String("NotFound"@)), optional: false, readonly: false }, FieldV { name: "resource"@, ty: TypeDefV::Primitive(Primitive::String), optional: false, readonly: false }]), TypeDefV::Object(seq![FieldV { name: "type"@, ty: TypeDefV::Literal(LiteralV::String("Unauthorized"@)), optional: false, readonly: false }]), TypeDefV::Object(seq![FieldV { name: "type"@, ty: TypeDefV::Literal(LiteralV::String("Forbidden"@)), optional: false, readonly: false }, FieldV { name: "reason"@, ty: TypeDefV::Primitive(Primitive::String), optional: false, readonly: false }]), TypeDefV::Object(seq![FieldV { name: "type"@, ty: TypeDefV::Literal(LiteralV::String("BadRequest"@)), optional: false, readonly: false }, FieldV { name: "field"@, ty: TypeDefV::Primitive(Primitive::String), optional: false, readonly: false }, FieldV { name: "message"@, ty: TypeDefV::Primitive(Primitive::String), optional: false, readonly: false }]), TypeDefV::Object(seq![FieldV { name: "type"@, ty: TypeDefV::Literal(LiteralV::String("Internal"@)), optional: false, readonly: false }])]));
        }
        let ns_vec: Vec<String> = Vec::new();
        proof {
            assert(crate::ir::view_string_seq(ns_vec@) =~= Seq::<Seq<char>>::empty());
        }
        let r = TypeDef::Named {
            namespace: ns_vec,
            name: "DerivedRpcError".to_owned(),
            def: Box::new(inner),
            module: Option::Some("ferrotype::fixtures".to_owned()),
            wrapper: Option::None,
        };
        proof {
            assert(r@ =~~= Self::typescript_spec());
        }
        r
    }
}

} // verus!
