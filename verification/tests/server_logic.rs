//! The request handlers' decision logic.

use ferrotype::fixtures::{GetUserRequest, ListUsersRequest};
use ferrotype::server::{get_user, list_users};

#[test]
fn test_get_user_found() {
    let response = get_user(GetUserRequest { user_id: 42 });
    let user = response.user.unwrap();
    assert_eq!(user.id, 42);
    assert_eq!(user.name, "User 42");
    assert_eq!(user.email, "user42@example.com");
    assert!(user.active);
}

#[test]
fn test_get_user_not_found() {
    let response = get_user(GetUserRequest { user_id: 9999 });
    assert!(response.user.is_none());
    let response0 = get_user(GetUserRequest { user_id: 0 });
    assert!(response0.user.is_none());
}

#[test]
fn test_list_users() {
    let response = list_users(ListUsersRequest { page: 1, per_page: 5, filter: None });
    assert_eq!(response.users.len(), 5);
    assert_eq!(response.page, 1);
    assert_eq!(response.per_page, 5);
    assert_eq!(response.total, 1000);
    assert_eq!(response.users[0].id, 1);
    assert_eq!(response.users[4].id, 5);
}

#[test]
fn test_list_users_clamps_inputs() {
    let response = list_users(ListUsersRequest { page: 0, per_page: 500, filter: None });
    assert_eq!(response.page, 1);
    assert_eq!(response.per_page, 100);
    assert_eq!(response.users.len(), 100);
}

#[test]
fn test_list_users_filters_active() {
    let response = list_users(ListUsersRequest {
        page: 1,
        per_page: 10,
        filter: Some("active".to_string()),
    });
    assert_eq!(response.users.len(), 5);
    for u in &response.users {
        assert!(u.active);
        assert_eq!(u.id % 2, 0);
    }

    let inactive = list_users(ListUsersRequest {
        page: 1,
        per_page: 10,
        filter: Some("inactive".to_string()),
    });
    assert_eq!(inactive.users.len(), 5);
    for u in &inactive.users {
        assert!(!u.active);
    }

    let other = list_users(ListUsersRequest {
        page: 1,
        per_page: 10,
        filter: Some("everything".to_string()),
    });
    assert_eq!(other.users.len(), 10);
}
