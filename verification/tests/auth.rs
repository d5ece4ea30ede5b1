use aether::auth::cache::AuthCache;
use aether::auth::role::{Permission, PermissionType};
use aether::auth::token::TokenValidator;
use aether::auth::user::User;

#[test]
fn test_user_crud() {
    let mut cache = AuthCache::new();
    let user = User::new("alice".to_string(), "hash".to_string());
    cache.insert_user(user.clone());

    let got = cache.get_user("alice").unwrap();
    assert_eq!(got.name, "alice");

    let users = cache.list_users();
    assert_eq!(users.len(), 1);

    cache.remove_user("alice");
    assert!(cache.get_user("alice").is_none());
}

#[test]
fn test_role_in_use() {
    let mut cache = AuthCache::new();
    let mut user = User::new("alice".to_string(), "hash".to_string());
    user.roles.push("admin".to_string());
    cache.insert_user(user);

    assert!(cache.is_role_in_use("admin"));
    assert!(!cache.is_role_in_use("other"));
}

fn read_perm(key: &[u8], range_end: &[u8]) -> Permission {
    Permission {
        perm_type: PermissionType::Read,
        key: key.to_vec(),
        range_end: range_end.to_vec(),
    }
}

#[test]
fn test_single_key_match() {
    let p = read_perm(b"/app/a", b"");
    assert!(p.covers_key(b"/app/a", PermissionType::Read));
    assert!(!p.covers_key(b"/app/b", PermissionType::Read));
}

#[test]
fn test_range_match() {
    let p = read_perm(b"/app/", b"/app0");
    assert!(p.covers_key(b"/app/a", PermissionType::Read));
    assert!(p.covers_key(b"/app/b", PermissionType::Read));
    assert!(!p.covers_key(b"/other/", PermissionType::Read));
}

#[test]
fn test_wildcard_range() {
    let p = read_perm(b"/app/", b"\0");
    assert!(p.covers_key(b"/app/a", PermissionType::Read));
    assert!(p.covers_key(b"/zzz", PermissionType::Read));
}

#[test]
fn test_permission_type_includes() {
    assert!(PermissionType::Readwrite.includes(PermissionType::Read));
    assert!(PermissionType::Readwrite.includes(PermissionType::Write));
    assert!(PermissionType::Read.includes(PermissionType::Read));
    assert!(!PermissionType::Read.includes(PermissionType::Write));
}

#[test]
fn test_covers_range() {
    let p = read_perm(b"/app/", b"/app0");
    assert!(p.covers_range(b"/app/a", b"/app/b", PermissionType::Read));
    assert!(!p.covers_range(b"/app/", b"/zzz", PermissionType::Read));
}

#[test]
fn test_covers_range_wildcard() {
    let p = read_perm(b"/", b"\0");
    assert!(p.covers_range(b"/app/", b"/app0", PermissionType::Read));
}

#[test]
fn test_single_key_perm_covers_range() {
    let p = read_perm(b"/app/a", b"");
    assert!(!p.covers_range(b"/app/a", b"/app/b", PermissionType::Read));
}

#[test]
fn test_covers_key_wrong_type() {
    let p = read_perm(b"/app/", b"\0");
    assert!(!p.covers_key(b"/app/a", PermissionType::Write));
}

#[test]
fn test_create_and_validate() {
    let validator = TokenValidator::new("test-secret", 24);
    let token = validator.create_token("alice").unwrap();
    let claims = validator.validate_token(&token).unwrap();
    assert_eq!(claims.sub, "alice");
}

#[test]
fn test_invalid_token() {
    let validator = TokenValidator::new("test-secret", 24);
    assert!(validator.validate_token("invalid-token").is_err());
}

#[test]
fn test_wrong_secret() {
    let v1 = TokenValidator::new("secret-1", 24);
    let v2 = TokenValidator::new("secret-2", 24);
    let token = v1.create_token("alice").unwrap();
    assert!(v2.validate_token(&token).is_err());
}

#[test]
fn test_hash_and_verify() {
    let hash = User::hash_password(b"secret123").unwrap();
    let user = User::new("alice".to_string(), hash);
    assert!(user.verify_password(b"secret123"));
    assert!(!user.verify_password(b"wrong"));
}

#[test]
fn test_different_hashes_for_same_password() {
    let h1 = User::hash_password(b"same").unwrap();
    let h2 = User::hash_password(b"same").unwrap();
    assert_ne!(h1, h2); // salt differs
}

#[test]
fn listed_users_are_found_by_name() {
    let mut cache = AuthCache::new();
    cache.load_users(vec![
        User::new("bob".to_string(), "h1".to_string()),
        User::new("alice".to_string(), "h2".to_string()),
        User::new("bob".to_string(), "h3".to_string()),
    ]);
    let listed = cache.list_users();
    assert_eq!(listed.len(), 2);
    for user in &listed {
        let found = cache.get_user(&user.name).unwrap();
        assert_eq!((&found.name, &found.password_hash), (&user.name, &user.password_hash));
    }
    assert_eq!(listed[1].password_hash, "h3");
}

#[test]
fn ranges_are_covered_up_to_the_end_of_the_grant() {
    let grant = Permission {
        perm_type: PermissionType::Read,
        key: b"b".to_vec(),
        range_end: b"d".to_vec(),
    };
    assert!(grant.covers_range(b"b", b"d", PermissionType::Read));
    assert!(!grant.covers_range(b"b", b"d\0", PermissionType::Read));
    assert!(!grant.covers_key(b"d", PermissionType::Read));
    assert!(!grant.covers_range(b"c", b"\0", PermissionType::Read));
}
