use aether::api::auth::{AuthCall, AuthService};
use aether::auth::token::Claims;
use aether::auth::{
    extract_txn_keys, role_key, user_key, AuthCache, AuthInterceptor, Permission, PermissionType, Role,
    TokenValidator, User,
};
use aether::proto;
use aether::raft::{self, RaftRequest, RaftResponse};
use aether::status::{Code, Status};

const SEC: u64 = 1_000_000_000;

fn said<T>(r: Result<T, Status>) -> (Code, String) {
    match r {
        Err(status) => (status.code, status.message),
        Ok(_) => panic!("accepted"),
    }
}

fn refusal(code: Code, message: &str) -> (Code, String) {
    (code, message.to_string())
}

fn interceptor(enabled: bool, bootstrapped: bool, cache: AuthCache) -> AuthInterceptor {
    AuthInterceptor::new(enabled, TokenValidator::new("secret", 24), cache, bootstrapped)
}

fn permission(perm_type: PermissionType, key: &[u8], range_end: &[u8]) -> Permission {
    Permission { perm_type, key: key.to_vec(), range_end: range_end.to_vec() }
}

/// Alice, with a role that reads /a/, and a disabled user.
fn people() -> AuthCache {
    let mut cache = AuthCache::new();
    let mut role = Role::new("reader".to_string());
    role.permissions.push(permission(PermissionType::Read, b"/a/", b"/a0"));
    cache.insert_role(role);
    let hash = User::hash_password(b"password").unwrap();
    let mut alice = User::new("alice".to_string(), hash.clone());
    alice.roles.push("gone".to_string());
    alice.roles.push("reader".to_string());
    cache.insert_user(alice);
    let mut eve = User::new("eve".to_string(), hash);
    eve.enabled = false;
    cache.insert_user(eve);
    cache
}

#[test]
fn permissions_are_checked_by_role() {
    let auth = interceptor(true, true, people());
    let read = PermissionType::Read;
    assert!(auth.check_permission("alice", b"/a/x", read).is_ok());
    assert!(auth.check_range_permission("alice", b"/a/x", b"/a/y", read).is_ok());
    assert_eq!(
        said(auth.check_permission("alice", b"/b", read)),
        refusal(Code::PermissionDenied, "permission denied for the requested resource")
    );
    assert_eq!(
        said(auth.check_range_permission("alice", b"/a/x", b"/b", read)),
        refusal(Code::PermissionDenied, "permission denied for the requested resource")
    );
    assert_eq!(
        said(auth.check_permission("alice", b"/a/x", PermissionType::Write)).0,
        Code::PermissionDenied
    );
    assert_eq!(
        said(auth.check_permission("eve", b"/a/x", read)),
        refusal(Code::Unauthenticated, "user is disabled")
    );
    assert_eq!(
        said(auth.check_permission("bob", b"/a/x", read)),
        refusal(Code::Unauthenticated, "user not found")
    );
    assert!(auth.check_permission("root", b"/anything", PermissionType::Write).is_ok());
    assert!(auth.check_range_permission("root", b"", b"\0", PermissionType::Write).is_ok());
}

#[test]
fn five_failures_in_the_window_lock_a_user_out() {
    let mut auth = interceptor(true, true, people());
    for i in 0..4 {
        auth.record_failure("alice", i * SEC);
        assert_eq!(auth.is_locked_out("alice", i * SEC), None);
    }
    auth.record_failure("alice", 4 * SEC);
    assert_eq!(auth.is_locked_out("alice", 4 * SEC), Some(900));
    assert_eq!(auth.is_locked_out("alice", 903 * SEC), Some(1));
    assert_eq!(auth.is_locked_out("alice", 903 * SEC + 1), None);
    assert_eq!(auth.is_locked_out("bob", 4 * SEC), None);
    auth.clear_failures("alice");
    assert_eq!(auth.is_locked_out("alice", 4 * SEC), None);
}

#[test]
fn failures_are_forgotten_after_the_window() {
    let mut auth = interceptor(true, true, people());
    for _ in 0..4 {
        auth.record_failure("alice", 0);
    }
    auth.record_failure("alice", 301 * SEC);
    assert_eq!(auth.is_locked_out("alice", 301 * SEC), None);
    for _ in 0..4 {
        auth.record_failure("alice", 600 * SEC);
    }
    assert_eq!(auth.is_locked_out("alice", 600 * SEC), Some(900));
}

#[test]
fn requests_carry_tokens() {
    let auth = interceptor(true, false, people());
    let token = auth.tokens().create_token("alice").unwrap();
    let bearer = format!("Bearer {token}");
    assert_eq!(auth.authenticate("/kv/Put", Some(&bearer), 0), Ok("alice".to_string()));
    assert_eq!(auth.authenticate("/kv/Put", Some(&token), 0), Ok("alice".to_string()));
    assert_eq!(auth.authenticate("/auth/Authenticate", None, 0), Ok(String::new()));
    assert_eq!(auth.authenticate("/auth/AuthEnable", None, 0), Ok(String::new()));
    assert_eq!(
        said(auth.authenticate("/kv/Put", None, 0)),
        refusal(Code::Unauthenticated, "missing authorization token")
    );
    assert_eq!(
        said(auth.authenticate("/kv/Put", Some("Bearer nonsense"), 0)),
        refusal(Code::Unauthenticated, "invalid or expired token")
    );
    let again = interceptor(true, true, people());
    assert!(again.authenticate("/auth/AuthEnable", None, 0).is_err());
    let off = interceptor(false, true, people());
    assert_eq!(off.authenticate("/kv/Put", None, 0), Ok(String::new()));
}

#[test]
fn claims_of_a_locked_user_are_refused() {
    let mut auth = interceptor(true, true, people());
    let claims = || Claims { sub: "alice".to_string(), exp: 2, iat: 1 };
    assert_eq!(auth.accept_claims(Ok(claims()), 0), Ok("alice".to_string()));
    assert_eq!(
        said(auth.accept_claims(Err("x".to_string()), 0)),
        refusal(Code::Unauthenticated, "invalid or expired token")
    );
    for _ in 0..5 {
        auth.record_failure("alice", 0);
    }
    assert_eq!(
        said(auth.accept_claims(Ok(claims()), 0)),
        refusal(Code::ResourceExhausted, "account locked, try again in 900s")
    );
}

#[test]
fn tokens_expire() {
    let validator = TokenValidator::new("secret", 1);
    let old = validator.create_token_at("alice", 1_000_000).unwrap();
    assert!(validator.validate_token(&old).is_err());
    let claims = TokenValidator::new("secret", 24)
        .validate_token(&TokenValidator::new("secret", 24).create_token("bob").unwrap())
        .unwrap();
    assert_eq!(claims.exp - claims.iat, 24 * 3600);
    assert!(TokenValidator::new("other", 24)
        .validate_token(&validator.create_token("bob").unwrap())
        .is_err());
}

#[test]
fn passwords_are_hashed_with_their_salt() {
    let a = User::hash_password_with(b"password", "c2FsdHNhbHRzYWx0").unwrap();
    let b = User::hash_password_with(b"password", "c2FsdHNhbHRzYWx0").unwrap();
    assert_eq!(a, b);
    assert!(a.starts_with("$argon2id$v=19$"));
    assert!(User::new("u".to_string(), a).verify_password(b"password"));
    assert!(User::hash_password_with(b"password", "!").unwrap_err().starts_with("password hash failed: "));
    assert!(!User::new("u".to_string(), "no hash".to_string()).verify_password(b"password"));
}

#[test]
fn records_have_keys_of_their_own() {
    assert_eq!(user_key("alice"), b"_aether_auth/user/alice");
    assert_eq!(role_key("alice"), b"_aether_auth/role/alice");
}

#[test]
fn keys_of_a_transaction() {
    let compare = raft::Compare {
        result: raft::CompareResult::Equal,
        target: raft::CompareTarget::Version,
        key: b"c".to_vec(),
        target_union: raft::TargetUnion::Version(1),
    };
    let put = raft::RequestOp {
        request: Some(raft::Request::Put(raft::PutRequest {
            key: b"p".to_vec(),
            value: Vec::new(),
            lease: 0,
            prev_kv: false,
        })),
    };
    let keys = extract_txn_keys(&[compare], &[put], &[]);
    assert!(keys.contains(&b"c".to_vec()) && keys.contains(&b"p".to_vec()));
}

#[test]
fn caches_are_loaded_and_listed_by_name() {
    let mut cache = AuthCache::new();
    cache.load_users(vec![
        User::new("b".to_string(), "1".to_string()),
        User::new("a".to_string(), "2".to_string()),
        User::new("b".to_string(), "3".to_string()),
    ]);
    let names: Vec<String> = cache.list_users().iter().map(|u| u.name.clone()).collect();
    assert_eq!(names, vec!["a".to_string(), "b".to_string()]);
    assert_eq!(cache.get_user("b").unwrap().password_hash, "3");
    cache.load_roles(vec![Role::new("r".to_string())]);
    assert_eq!(cache.list_roles().len(), 1);
    assert!(cache.get_role("r").is_some());
    cache.remove_role("r");
    assert!(cache.find_role("r").is_none());
}

#[test]
fn administration_needs_root() {
    let service = AuthService::new(7);
    let fresh = interceptor(false, false, AuthCache::new());
    let once = interceptor(false, true, AuthCache::new());
    assert!(service.role_delete_request(&fresh, None, "r").is_ok());
    assert_eq!(
        said(service.role_delete_request(&once, None, "r")),
        refusal(Code::Unauthenticated, "no user in context")
    );
    assert_eq!(
        said(service.auth_disable_request(&once, Some("alice"))),
        refusal(Code::PermissionDenied, "root user required")
    );
    assert!(matches!(service.auth_disable_request(&once, Some("root")), Ok(RaftRequest::AuthDisable {})));
    assert!(AuthService::require_admin(&once, Some("root")).is_ok());
    assert!(!service.auth_status(&once).enabled);
}

#[test]
fn names_and_passwords_are_checked() {
    let service = AuthService::new(7);
    let auth = interceptor(false, false, AuthCache::new());
    let add = |name: &str, password: &[u8]| {
        let req = proto::UserAddRequest { name: name.to_string(), password: password.to_vec() };
        service.user_add_request(&auth, None, &req)
    };
    assert_eq!(said(add("", b"password")), refusal(Code::InvalidArgument, "name must not be empty"));
    assert_eq!(
        said(add(&"x".repeat(129), b"password")),
        refusal(Code::InvalidArgument, "name must not exceed 128 bytes")
    );
    assert_eq!(
        said(add("a\0", b"password")),
        refusal(Code::InvalidArgument, "name must not contain null bytes")
    );
    assert_eq!(
        said(add("_aether_x", b"password")),
        refusal(Code::InvalidArgument, "name must not start with reserved prefix _aether_")
    );
    assert_eq!(
        said(add("a", b"seven77")),
        refusal(Code::InvalidArgument, "password must be at least 8 characters")
    );
    assert_eq!(
        said(add("a", &[b'x'; 1025])),
        refusal(Code::InvalidArgument, "password must not exceed 1024 bytes")
    );
    match add("a", b"password") {
        Ok(RaftRequest::AuthUserAdd { name, password_hash }) => {
            assert_eq!(name, b"a");
            let user = User::new("a".to_string(), String::from_utf8(password_hash).unwrap());
            assert!(user.verify_password(b"password"));
        }
        _ => panic!("not proposed"),
    }
    let req = proto::UserAddRequest { name: "a".to_string(), password: b"password".to_vec() };
    assert!(matches!(
        service.user_change_password_request(&auth, None, &req),
        Ok(RaftRequest::AuthUserChangePassword { .. })
    ));
    assert!(AuthService::validate_name(&"\u{e9}".repeat(64)).is_ok());
    assert!(AuthService::validate_name(&"\u{e9}".repeat(65)).is_err());
    assert!(service.role_add_request(&auth, None, "").is_err());
    assert!(matches!(service.role_add_request(&auth, None, "r"), Ok(RaftRequest::AuthRoleAdd { name }) if name == b"r"));
}

#[test]
fn users_and_roles_are_shown() {
    let service = AuthService::new(7);
    let auth = interceptor(false, false, people());
    let user = service.user_get(&auth, None, "alice").unwrap().user.unwrap();
    assert_eq!(user.roles, vec!["gone".to_string(), "reader".to_string()]);
    assert_eq!(said(service.user_get(&auth, None, "bob")), refusal(Code::NotFound, "user not found"));
    assert_eq!(service.user_list(&auth, None).unwrap().users.len(), 2);
    let role = service.role_get(&auth, None, "reader").unwrap().role.unwrap();
    assert_eq!(role.permissions[0].perm_type, Some(proto::PermissionType::Read));
    assert_eq!(role.permissions[0].key, b"/a/");
    assert_eq!(said(service.role_get(&auth, None, "x")), refusal(Code::NotFound, "role not found"));
    assert_eq!(service.role_list(&auth, None).unwrap().roles.len(), 1);
    assert_eq!(
        said(service.user_delete_request(&auth, None, "root")),
        refusal(Code::PermissionDenied, "cannot delete root user")
    );
    assert!(service.user_delete_request(&auth, None, "alice").is_ok());
    let req = proto::UserRoleRequest { user: "alice".to_string(), role: "r".to_string() };
    assert!(matches!(
        service.user_grant_role_request(&auth, None, &req),
        Ok(RaftRequest::AuthUserGrantRole { user, role }) if user == b"alice" && role == b"r"
    ));
    assert!(matches!(
        service.user_revoke_role_request(&auth, None, &req),
        Ok(RaftRequest::AuthUserRevokeRole { .. })
    ));
}

#[test]
fn permissions_are_granted_and_revoked() {
    let service = AuthService::new(7);
    let auth = interceptor(false, false, people());
    let req = |permission: Option<proto::Permission>| proto::RolePermissionRequest {
        role: "r".to_string(),
        permission,
    };
    let asked = |perm_type: Option<proto::PermissionType>| {
        Some(proto::Permission { perm_type, key: b"k".to_vec(), range_end: Vec::new() })
    };
    assert_eq!(
        said(service.role_grant_permission_request(&auth, None, req(None))),
        refusal(Code::InvalidArgument, "permission required")
    );
    assert_eq!(
        said(service.role_revoke_permission_request(&auth, None, req(asked(None)))),
        refusal(Code::InvalidArgument, "invalid permission type")
    );
    match service.role_grant_permission_request(
        &auth,
        None,
        req(asked(Some(proto::PermissionType::Readwrite))),
    ) {
        Ok(RaftRequest::AuthRoleGrantPermission { role, permission }) => {
            assert_eq!(role, b"r");
            assert!(permission.covers_key(b"k", PermissionType::Write));
        }
        _ => panic!("not proposed"),
    }
    assert!(matches!(
        service.role_revoke_permission_request(&auth, None, req(asked(Some(proto::PermissionType::Write)))),
        Ok(RaftRequest::AuthRoleRevokePermission { .. })
    ));
}

#[test]
fn users_authenticate() {
    let service = AuthService::new(7);
    let mut auth = interceptor(true, true, people());
    let req = |name: &str, password: &[u8]| proto::AuthenticateRequest {
        name: name.to_string(),
        password: password.to_vec(),
    };
    let token = service.authenticate(&mut auth, &req("alice", b"password"), 0).unwrap().token;
    assert_eq!(auth.tokens().validate_token(&token).unwrap().sub, "alice");
    let wrong = refusal(Code::Unauthenticated, "invalid credentials");
    assert_eq!(said(service.authenticate(&mut auth, &req("alice", b"wrong"), 0)), wrong);
    assert_eq!(said(service.authenticate(&mut auth, &req("eve", b"password"), 0)), wrong);
    assert_eq!(said(service.authenticate(&mut auth, &req("bob", b"password"), 0)), wrong);
    assert_eq!(
        said(service.authenticate(&mut auth, &req("alice", &[0; 1025]), 0)),
        refusal(Code::InvalidArgument, "password must not exceed 1024 bytes")
    );
    for _ in 0..4 {
        assert_eq!(said(service.authenticate(&mut auth, &req("bob", b"x"), 0)), wrong);
    }
    assert_eq!(
        said(service.authenticate(&mut auth, &req("bob", b"x"), 0)),
        refusal(Code::ResourceExhausted, "account locked, try again in 900s")
    );
    let mut off = interceptor(false, true, people());
    assert_eq!(
        said(service.authenticate(&mut off, &req("alice", b"password"), 0)),
        refusal(Code::FailedPrecondition, "auth is not enabled")
    );
}

#[test]
fn authentication_is_turned_on() {
    let service = AuthService::new(7);
    let mut auth = interceptor(false, false, AuthCache::new());
    assert_eq!(
        said(service.auth_enable_request(&auth, None, b"short", 0)),
        refusal(Code::InvalidArgument, "root password must be at least 8 characters")
    );
    assert_eq!(
        said(service.auth_enable_request(&auth, None, &[0; 1025], 0)),
        refusal(Code::InvalidArgument, "root password must not exceed 1024 bytes")
    );
    assert!(matches!(
        service.auth_enable_request(&auth, None, b"password", 0),
        Ok(RaftRequest::AuthEnable { .. })
    ));
    assert!(service.auth_enable_response(&mut auth, Ok(RaftResponse::AuthEnable {}), 0).is_ok());
    for _ in 0..5 {
        let failed = Ok(RaftResponse::Error { message: "no".to_string() });
        assert_eq!(
            said(service.auth_enable_response(&mut auth, failed, 0)),
            refusal(Code::Internal, "no")
        );
    }
    assert_eq!(
        said(service.auth_enable_request(&auth, None, b"password", 0)),
        refusal(Code::ResourceExhausted, "too many attempts, try again in 900s")
    );
    auth.set_bootstrapped(true);
    assert_eq!(
        said(service.auth_enable_request(&auth, None, b"password", 0)),
        refusal(Code::Unauthenticated, "no user in context")
    );
    auth.set_enabled(true);
    assert!(auth.is_enabled() && auth.is_bootstrapped());
}

#[test]
fn answers_of_the_state_machine_are_passed_on() {
    let service = AuthService::new(7);
    let failed = || RaftResponse::Error { message: "m".to_string() };
    assert!(service.done_response(AuthCall::UserAdd, RaftResponse::AuthUserAdd {}).is_ok());
    assert_eq!(
        said(service.done_response(AuthCall::UserAdd, failed())),
        refusal(Code::AlreadyExists, "m")
    );
    assert_eq!(
        said(service.done_response(AuthCall::RoleDelete, failed())),
        refusal(Code::FailedPrecondition, "m")
    );
    assert_eq!(
        said(service.done_response(AuthCall::UserDelete, failed())),
        refusal(Code::NotFound, "m")
    );
    assert_eq!(
        said(service.done_response(AuthCall::AuthDisable, failed())),
        refusal(Code::Internal, "m")
    );
    assert_eq!(
        said(service.done_response(AuthCall::RoleAdd, RaftResponse::AuthRoleDelete {})),
        refusal(Code::Internal, "unexpected response")
    );
}

#[test]
fn users_are_given_the_token_of_the_time() {
    let service = AuthService::new(7);
    let mut auth = interceptor(true, true, people());
    let req = proto::AuthenticateRequest { name: "alice".to_string(), password: b"password".to_vec() };
    let given = service.authenticate_on(&mut auth, &req, 0, Some(3_600_999)).unwrap();
    assert_eq!(given.header.unwrap().member_id, 7);
    assert_eq!(given.token, auth.tokens().create_token_at("alice", 3_600).unwrap());

    auth.record_failure("alice", 0);
    assert_eq!(
        said(service.authenticate_on(&mut auth, &req, 0, None)),
        refusal(Code::Internal, "token creation failed: system clock is before the Unix epoch")
    );
    assert_eq!(
        said(service.authenticate_on(&mut auth, &req, 0, Some(u64::MAX as u128 * 1000))),
        refusal(Code::Internal, "token creation failed: expiry time out of range")
    );
    for _ in 0..4 {
        auth.record_failure("alice", 0);
    }
    assert_eq!(auth.is_locked_out("alice", 0), None);
}

#[test]
fn tokens_hold_the_claims_in_order() {
    assert_eq!(
        TokenValidator::new("secret", 1).create_token_at("alice", 3600).unwrap(),
        "eyJ0eXAiOiJKV1QiLCJhbGciOiJIUzI1NiJ9.\
         eyJzdWIiOiJhbGljZSIsImV4cCI6NzIwMCwiaWF0IjozNjAwfQ.\
         G1IQl8U_nLJhXzlczFhohzTe8O1LJuPf00FVarq5fa8"
    );
}

#[test]
fn lockout_is_for_the_user_of_the_token() {
    let mut auth = interceptor(true, true, people());
    let token = auth.tokens().create_token("alice").unwrap();
    for _ in 0..5 {
        auth.record_failure("root", 0);
    }
    assert_eq!(auth.authenticate("/kv/Put", Some(&token), 0), Ok("alice".to_string()));
    for _ in 0..5 {
        auth.record_failure("alice", 0);
    }
    assert_eq!(
        said(auth.authenticate("/kv/Put", Some(&token), 0)),
        refusal(Code::ResourceExhausted, "account locked, try again in 900s")
    );
}
