//! The fixture types' declared TypeScript shapes.

use ferrotype::fixtures::{
    DerivedMessage, DerivedRpcError, DerivedStatus, GetUserResponse, ListUsersResponse, Message,
    RpcError, Status, User,
};
use ferrotype::{TypeDef, TypeRegistry, TypeScript};

fn inner_def(td: TypeDef) -> TypeDef {
    match td {
        TypeDef::Named { def, .. } => *def,
        other => other,
    }
}

#[test]
fn test_status_typescript() {
    let td = Status::typescript();
    assert_eq!(td.render(), "Status");
}

#[test]
fn test_user_declaration() {
    let td = User::typescript();
    assert_eq!(
        td.render_declaration(),
        "type User = { id: number; name: string; email: string; active: boolean };"
    );
}

#[test]
fn test_derived_unit_enum() {
    // Pure unit enums produce simple string unions
    let td = DerivedStatus::typescript();
    assert_eq!(
        inner_def(td.clone()).render(),
        r#""Pending" | "Active" | "Completed" | "Failed""#
    );
    assert_eq!(td.render(), "DerivedStatus");
}

#[test]
fn test_derived_mixed_enum() {
    let td = DerivedMessage::typescript();
    assert_eq!(
        inner_def(td.clone()).render(),
        r#"{ type: "Ping" } | { type: "Text"; value: string } | { type: "Binary"; value: number[] } | { type: "Error"; code: number; message: string }"#
    );
    assert_eq!(td.render(), "DerivedMessage");
}

#[test]
fn test_derived_error_enum() {
    let td = DerivedRpcError::typescript();
    assert_eq!(
        inner_def(td).render(),
        r#"{ type: "NotFound"; resource: string } | { type: "Unauthorized" } | { type: "Forbidden"; reason: string } | { type: "BadRequest"; field: string; message: string } | { type: "Internal" }"#
    );
}

#[test]
fn test_derived_matches_manual_status() {
    assert_eq!(
        inner_def(DerivedStatus::typescript()).render(),
        inner_def(Status::typescript()).render()
    );
}

#[test]
fn test_derived_matches_manual_message() {
    assert_eq!(
        inner_def(DerivedMessage::typescript()).render(),
        inner_def(Message::typescript()).render()
    );
}

#[test]
fn test_derived_matches_manual_rpc_error() {
    assert_eq!(
        inner_def(DerivedRpcError::typescript()).render(),
        inner_def(RpcError::typescript()).render()
    );
}

#[test]
fn test_fixture_registry_round() {
    let mut registry = TypeRegistry::new();
    registry.register::<GetUserResponse>();
    registry.register::<ListUsersResponse>();
    registry.register::<User>();

    // User is referenced by name only, so the responses and the separately
    // registered User make three entries, and User's declaration comes
    // from its own registration.
    assert_eq!(registry.len(), 3);
    let output = registry.render_exported();
    assert!(output.contains("export type GetUserResponse = { user: User | null };"));
    assert!(output.contains("export type ListUsersResponse = "));
    assert!(output.contains("export type User = "));
}
