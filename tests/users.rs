use user_api::handlers::{
    create_user, create_user_with_id, find_user, get_user, list_users, parse_user_id,
    validate_request,
};
use user_api::model::{ApiError, CreateUserRequest, User};
use user_api::store::UserStore;

fn req(name: &str, email: &str) -> CreateUserRequest {
    CreateUserRequest { name: name.to_string(), email: email.to_string() }
}

#[test]
fn create_then_get_and_list() {
    let mut store = UserStore::new();
    let u = create_user(&mut store, req("Alice", "alice@example.com")).unwrap();
    assert_eq!(u.name, "Alice");
    assert_eq!(u.email, "alice@example.com");
    let text = u.id_text();
    assert_eq!(text.len(), 36);
    assert_eq!(get_user(&store, &text), Ok(u.clone()));
    assert_eq!(list_users(&store), vec![u]);
}

#[test]
fn empty_name_is_refused_and_store_untouched() {
    let mut store = UserStore::new();
    let e = create_user(&mut store, req("", "x@y.com")).unwrap_err();
    assert_eq!(e, ApiError::BadRequest("name and email are required".to_string()));
    assert_eq!(e.status_code(), 400);
    assert_eq!(e.message(), "bad request: name and email are required");
    assert_eq!(store.len(), 0);
}

#[test]
fn whitespace_only_fields_are_refused_every_time() {
    let mut store = UserStore::new();
    for _ in 0..3 {
        let e = create_user(&mut store, req("Bob", "  \t ")).unwrap_err();
        assert_eq!(e, ApiError::BadRequest("name and email are required".to_string()));
        let e = create_user(&mut store, req("   ", "b@c.d")).unwrap_err();
        assert_eq!(e, ApiError::BadRequest("name and email are required".to_string()));
    }
    assert_eq!(store.len(), 0);
}

#[test]
fn untrimmed_fields_are_kept_as_sent() {
    let mut store = UserStore::new();
    let u = create_user(&mut store, req("  Carol ", " c@d.e")).unwrap();
    assert_eq!(u.name, "  Carol ");
    assert_eq!(u.email, " c@d.e");
}

#[test]
fn malformed_id_is_bad_request() {
    let store = UserStore::new();
    let e = get_user(&store, "not-a-valid-id").unwrap_err();
    assert_eq!(e, ApiError::BadRequest("invalid UUID".to_string()));
    assert_eq!(e.message(), "bad request: invalid UUID");
}

#[test]
fn unknown_id_is_not_found() {
    let mut store = UserStore::new();
    create_user(&mut store, req("Dan", "d@e.f")).unwrap();
    let e = get_user(&store, "67e55044-10b1-426f-9247-bb680e5fe0c8").unwrap_err();
    assert_eq!(e, ApiError::NotFound);
    assert_eq!(e.status_code(), 404);
    assert_eq!(e.message(), "user not found");
    assert_eq!(find_user(&store, 7), Err(ApiError::NotFound));
}

#[test]
fn id_text_is_hyphenated_hex() {
    let u = User { id: 0x67e5504410b1426f9247bb680e5fe0c8, name: "E".to_string(), email: "e@f".to_string() };
    assert_eq!(u.id_text(), "67e55044-10b1-426f-9247-bb680e5fe0c8");
}

#[test]
fn created_ids_are_distinct() {
    let mut store = UserStore::new();
    let mut ids = Vec::new();
    for i in 0..20 {
        let u = create_user(&mut store, req(&format!("user{i}"), "u@v.w")).unwrap();
        assert!(!ids.contains(&u.id));
        ids.push(u.id);
    }
    assert_eq!(store.len(), 20);
}

#[test]
fn list_is_ordered_by_name_then_id() {
    let mut store = UserStore::new();
    create_user_with_id(&mut store, req("bob", "b@x"), 5).unwrap();
    create_user_with_id(&mut store, req("Zed", "z@x"), 1).unwrap();
    create_user_with_id(&mut store, req("bob", "b2@x"), 2).unwrap();
    create_user_with_id(&mut store, req("alice", "a@x"), 9).unwrap();
    create_user_with_id(&mut store, req("bo", "o@x"), 3).unwrap();
    let names: Vec<(String, u128)> = list_users(&store).into_iter().map(|u| (u.name, u.id)).collect();
    assert_eq!(
        names,
        vec![
            ("Zed".to_string(), 1),
            ("alice".to_string(), 9),
            ("bo".to_string(), 3),
            ("bob".to_string(), 2),
            ("bob".to_string(), 5),
        ]
    );
    assert!(list_users(&UserStore::new()).is_empty());
}

#[test]
fn taken_id_is_internal_error() {
    let mut store = UserStore::new();
    create_user_with_id(&mut store, req("a", "b"), 42).unwrap();
    let e = create_user_with_id(&mut store, req("c", "d"), 42).unwrap_err();
    assert_eq!(e, ApiError::Internal);
    assert_eq!(e.status_code(), 500);
    assert_eq!(e.message(), "internal server error");
    assert_eq!(find_user(&store, 42).unwrap().name, "a");
}

#[test]
fn insert_overwrites_same_id() {
    let mut store = UserStore::new();
    store.insert(User { id: 1, name: "a".to_string(), email: "x".to_string() });
    store.insert(User { id: 1, name: "b".to_string(), email: "y".to_string() });
    assert_eq!(store.len(), 1);
    assert_eq!(store.get(1).unwrap().name, "b");
    assert_eq!(store.get(2), None);
}

#[test]
fn non_hyphenated_id_forms_are_refused() {
    let mut store = UserStore::new();
    create_user_with_id(&mut store, req("a", "b"), 0x67e5504410b1426f9247bb680e5fe0c8).unwrap();
    let bad = ApiError::BadRequest("invalid UUID".to_string());
    for text in [
        "",
        "123",
        "zzzzzzzz-zzzz-zzzz-zzzz-zzzzzzzzzzzz",
        "67e5504410b1426f9247bb680e5fe0c8",
        "{67e55044-10b1-426f-9247-bb680e5fe0c8}",
        "urn:uuid:67e55044-10b1-426f-9247-bb680e5fe0c8",
        "67e55044-10b1-426f-9247bbb680e5fe0c8",
    ] {
        assert_eq!(get_user(&store, text), Err(bad.clone()));
        assert_eq!(parse_user_id(text), Err(bad.clone()));
    }
}

#[test]
fn hyphenated_id_of_either_case_is_read() {
    let mut store = UserStore::new();
    create_user_with_id(&mut store, req("a", "b"), 0x67e5504410b1426f9247bb680e5fe0c8).unwrap();
    assert_eq!(parse_user_id("67E55044-10B1-426F-9247-BB680E5FE0C8"), Ok(0x67e5504410b1426f9247bb680e5fe0c8));
    assert_eq!(get_user(&store, "67E55044-10B1-426F-9247-BB680E5FE0C8").unwrap().name, "a");
    assert_eq!(get_user(&store, "67e55044-10b1-426f-9247-bb680e5fe0c8").unwrap().id, 0x67e5504410b1426f9247bb680e5fe0c8);
}

#[test]
fn validation_alone() {
    assert_eq!(validate_request(&req("Ann", "a@b.c")), Ok(()));
    assert_eq!(
        validate_request(&req("Ann", "\n\r\t ")),
        Err(ApiError::BadRequest("name and email are required".to_string()))
    );
    assert_eq!(
        validate_request(&req("", "")),
        Err(ApiError::BadRequest("name and email are required".to_string()))
    );
}

#[test]
fn first_creation_on_empty_store_succeeds() {
    let mut store = UserStore::new();
    let u = create_user(&mut store, req("Alice", "alice@example.com")).unwrap();
    assert_eq!(store.len(), 1);
    assert_eq!(store.get(u.id), Some(u));
}
