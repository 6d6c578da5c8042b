//! Service methods following the request/response calling convention.

struct GetUserRequest {
    id: String,
}

struct GetUserResponse {
    name: String,
}

struct ListUsersRequest {
    page: i32,
}

struct ListUsersResponse {
    users: Vec<String>,
}

// Test service with request/response methods
struct TestService;

impl TestService {
    fn get_user(&self, _request: GetUserRequest) -> GetUserResponse {
        GetUserResponse { name: "test".to_string() }
    }

    fn list_users(&self, _request: ListUsersRequest) -> ListUsersResponse {
        ListUsersResponse { users: vec![] }
    }
}

#[test]
fn test_rpc_method_basic() {
    let service = TestService;
    let request = GetUserRequest { id: "123".to_string() };
    let _ = &request.id;
    let response = service.get_user(request);
    assert_eq!(response.name, "test");
}

#[test]
fn test_rpc_method_with_custom_name() {
    let service = TestService;
    let request = ListUsersRequest { page: 1 };
    let _ = &request.page;
    let response = service.list_users(request);
    assert!(response.users.is_empty());
}

// Test with &self reference
struct RefService;

impl RefService {
    fn method_with_ref(&self, _request: GetUserRequest) -> GetUserResponse {
        GetUserResponse { name: "ref".to_string() }
    }
}

#[test]
fn test_rpc_method_with_self_ref() {
    let service = RefService;
    let request = GetUserRequest { id: "456".to_string() };
    let response = service.method_with_ref(request);
    assert_eq!(response.name, "ref");
}

// Test with &mut self reference
struct MutService {
    counter: i32,
}

impl MutService {
    fn increment(&mut self, _request: GetUserRequest) -> GetUserResponse {
        self.counter += 1;
        GetUserResponse { name: format!("count: {}", self.counter) }
    }
}

#[test]
fn test_rpc_method_with_mut_self() {
    let mut service = MutService { counter: 0 };
    let request = GetUserRequest { id: "789".to_string() };
    let response = service.increment(request);
    assert_eq!(response.name, "count: 1");
    assert_eq!(service.counter, 1);
}
