//! Auth service: users, roles, tokens, and turning authentication on and off.

use vstd::prelude::*;

use super::guard::require_root;
use crate::auth::{AuthInterceptor, Permission, PermissionType, Role, User};
use crate::bytes::contains_byte;
use crate::clock::unix_millis;
use crate::names::is_reserved;
use crate::proto::{
    AuthRole, AuthStatusResponse, AuthUser, AuthenticateRequest, AuthenticateResponse,
    DoneResponse, ResponseHeader, RoleGetResponse, RoleListResponse, RolePermissionRequest,
    UserAddRequest, UserGetResponse, UserListResponse, UserRoleRequest,
};
use crate::raft::{RaftRequest, RaftResponse};
use crate::status::Status;
use crate::text::{format_u64, join3, same, to_bytes};

verus! {

/// The longest password that is taken.
pub const MAX_PASSWORD_LEN: usize = 1024;

/// The shortest password that is taken.
pub const MIN_PASSWORD_LEN: usize = 8;

/// The longest name of a user or a role.
pub const MAX_AUTH_NAME_LEN: usize = 128;

/// The name under which attempts to turn authentication on are counted.
pub const AUTH_ENABLE_NAME: &'static str = "__auth_enable__";

/// With what the name of a user or a role is refused.
pub open spec fn name_refusal(name: Seq<char>) -> Option<crate::status::Refusal> {
    let bytes = crate::text::utf8(name);
    if name.len() == 0 {
        Some((crate::status::Code::InvalidArgument, "name must not be empty"@))
    } else if bytes.len() > MAX_AUTH_NAME_LEN {
        Some((crate::status::Code::InvalidArgument, "name must not exceed 128 bytes"@))
    } else if bytes.contains(0u8) {
        Some((crate::status::Code::InvalidArgument, "name must not contain null bytes"@))
    } else if crate::names::reserved_prefix().is_prefix_of(bytes) {
        Some(
            (
                crate::status::Code::InvalidArgument,
                "name must not start with reserved prefix _aether_"@,
            ),
        )
    } else {
        None
    }
}

/// With what a new password is refused.
pub open spec fn password_refusal(len: nat) -> Option<crate::status::Refusal> {
    if len < MIN_PASSWORD_LEN {
        Some((crate::status::Code::InvalidArgument, "password must be at least 8 characters"@))
    } else if len > MAX_PASSWORD_LEN {
        Some((crate::status::Code::InvalidArgument, "password must not exceed 1024 bytes"@))
    } else {
        None
    }
}

/// With what a new root password is refused.
pub open spec fn root_password_refusal(len: nat) -> Option<crate::status::Refusal> {
    if len < MIN_PASSWORD_LEN {
        Some(
            (
                crate::status::Code::InvalidArgument,
                "root password must be at least 8 characters"@,
            ),
        )
    } else if len > MAX_PASSWORD_LEN {
        Some((crate::status::Code::InvalidArgument, "root password must not exceed 1024 bytes"@))
    } else {
        None
    }
}

/// With what an administrative request is refused. Root is needed while
/// authentication is on, and also while it is off once it was on.
pub open spec fn admin_refusal(
    enabled: bool,
    bootstrapped: bool,
    username: Option<Seq<char>>,
) -> Option<crate::status::Refusal> {
    super::guard::root_refusal(enabled || bootstrapped, username)
}

/// With what a new user, or a new password of a user, is refused.
pub open spec fn credentials_refusal(
    enabled: bool,
    bootstrapped: bool,
    username: Option<Seq<char>>,
    name: Seq<char>,
    password_len: nat,
) -> Option<crate::status::Refusal> {
    super::kv::first_refusal(
        admin_refusal(enabled, bootstrapped, username),
        super::kv::first_refusal(name_refusal(name), password_refusal(password_len)),
    )
}

/// A stored hash is one that the password is accepted for.
pub open spec fn stores_hash(stored: Seq<u8>, password: Seq<u8>) -> bool {
    exists|hash: Seq<char>|
        stored == #[trigger] crate::text::utf8(hash) && crate::auth::user::argon2_accepts(
            hash,
            password,
        )
}

/// The status says why the password could not be hashed.
pub open spec fn hash_failure(password: Seq<u8>, status: Status) -> bool {
    exists|message: String|
        status.says((crate::status::Code::Internal, #[trigger] message@))
            && crate::auth::user::hashed(password, Err::<String, String>(message))
}

/// A user as clients see it.
pub open spec fn shows_user(user: crate::auth::user::UserData, shown: AuthUser) -> bool {
    &&& shown.name@ == user.name
    &&& crate::text::texts(shown.roles@) == user.roles
    &&& shown.enabled == user.enabled
}

/// Users as clients see them, one for one.
pub open spec fn shows_users(users: Seq<crate::auth::user::UserData>, shown: Seq<AuthUser>) -> bool {
    &&& shown.len() == users.len()
    &&& forall|i: int| 0 <= i < users.len() ==> shows_user(#[trigger] users[i], shown[i])
}

/// A permission type as clients see it.
pub open spec fn shown_type(t: PermissionType) -> crate::proto::PermissionType {
    match t {
        PermissionType::Read => crate::proto::PermissionType::Read,
        PermissionType::Write => crate::proto::PermissionType::Write,
        PermissionType::Readwrite => crate::proto::PermissionType::Readwrite,
    }
}

/// The permission type that a client means.
pub open spec fn meant_type(t: crate::proto::PermissionType) -> PermissionType {
    match t {
        crate::proto::PermissionType::Read => PermissionType::Read,
        crate::proto::PermissionType::Write => PermissionType::Write,
        crate::proto::PermissionType::Readwrite => PermissionType::Readwrite,
    }
}

/// A permission type is shown as clients mean it.
pub proof fn permission_types_agree(t: PermissionType)
    ensures
        meant_type(shown_type(t)) == t,
{
}

/// A permission as clients see it.
pub open spec fn shows_permission(
    grant: crate::auth::role::Grant,
    shown: crate::proto::Permission,
) -> bool {
    &&& shown.perm_type == Some(shown_type(grant.perm_type))
    &&& shown.key@ == grant.key
    &&& shown.range_end@ == grant.range_end
}

/// A role as clients see it.
pub open spec fn shows_role(role: crate::auth::role::RoleData, shown: AuthRole) -> bool {
    &&& shown.name@ == role.name
    &&& shown.permissions@.len() == role.permissions.len()
    &&& forall|i: int|
        0 <= i < role.permissions.len() ==> shows_permission(
            #[trigger] role.permissions[i],
            shown.permissions@[i],
        )
}

/// Roles as clients see them, one for one.
pub open spec fn shows_roles(roles: Seq<crate::auth::role::RoleData>, shown: Seq<AuthRole>) -> bool {
    &&& shown.len() == roles.len()
    &&& forall|i: int| 0 <= i < roles.len() ==> shows_role(#[trigger] roles[i], shown[i])
}

fn show_user(user: User) -> (r: AuthUser)
    ensures
        shows_user(user@, r),
{
    AuthUser { name: user.name, roles: user.roles, enabled: user.enabled }
}

fn show_role(role: Role) -> (r: AuthRole)
    ensures
        shows_role(role@, r),
{
    let ghost grants = role@.permissions;
    let ghost held = role.permissions@;
    let mut permissions: Vec<crate::proto::Permission> = Vec::new();
    for p in iter: role.permissions
        invariant
            iter.seq() == held,
            grants.len() == held.len(),
            forall|j: int| 0 <= j < held.len() ==> #[trigger] grants[j] == held[j]@,
            permissions@.len() == iter.index(),
            forall|j: int|
                0 <= j < permissions@.len() ==> shows_permission(
                    #[trigger] grants[j],
                    permissions@[j],
                ),
    {
        let ghost k = permissions@.len() as int;
        assert(p == held[k]);
        let perm_type = match p.perm_type {
            PermissionType::Read => crate::proto::PermissionType::Read,
            PermissionType::Write => crate::proto::PermissionType::Write,
            PermissionType::Readwrite => crate::proto::PermissionType::Readwrite,
        };
        permissions.push(
            crate::proto::Permission {
                perm_type: Some(perm_type),
                key: p.key,
                range_end: p.range_end,
            },
        );
    }
    AuthRole { name: role.name, permissions }
}

/// The requests that are answered with no more than that they were carried out.
#[derive(Debug, Clone, Copy, PartialEq, Eq, Structural)]
pub enum AuthCall {
    UserAdd,
    UserDelete,
    UserChangePassword,
    UserGrantRole,
    UserRevokeRole,
    RoleAdd,
    RoleDelete,
    RoleGrantPermission,
    RoleRevokePermission,
    AuthEnable,
    AuthDisable,
}

impl AuthCall {
    /// The state machine carried the request out.
    pub open spec fn is_done(self, resp: RaftResponse) -> bool {
        match self {
            AuthCall::UserAdd => resp is AuthUserAdd,
            AuthCall::UserDelete => resp is AuthUserDelete,
            AuthCall::UserChangePassword => resp is AuthUserChangePassword,
            AuthCall::UserGrantRole => resp is AuthUserGrantRole,
            AuthCall::UserRevokeRole => resp is AuthUserRevokeRole,
            AuthCall::RoleAdd => resp is AuthRoleAdd,
            AuthCall::RoleDelete => resp is AuthRoleDelete,
            AuthCall::RoleGrantPermission => resp is AuthRoleGrantPermission,
            AuthCall::RoleRevokePermission => resp is AuthRoleRevokePermission,
            AuthCall::AuthEnable => resp is AuthEnable,
            AuthCall::AuthDisable => resp is AuthDisable,
        }
    }

    /// The code with which an error of the state machine is answered.
    pub open spec fn error_code(self) -> crate::status::Code {
        match self {
            AuthCall::UserAdd => crate::status::Code::AlreadyExists,
            AuthCall::RoleAdd => crate::status::Code::AlreadyExists,
            AuthCall::RoleDelete => crate::status::Code::FailedPrecondition,
            AuthCall::AuthEnable => crate::status::Code::Internal,
            AuthCall::AuthDisable => crate::status::Code::Internal,
            _ => crate::status::Code::NotFound,
        }
    }

    /// With what an answer of the state machine refuses the request.
    pub open spec fn refusal(self, resp: RaftResponse) -> Option<crate::status::Refusal> {
        if self.is_done(resp) {
            None
        } else {
            match resp {
                RaftResponse::Error { message } => Some((self.error_code(), message@)),
                _ => Some((crate::status::Code::Internal, "unexpected response"@)),
            }
        }
    }

    fn done(self, resp: &RaftResponse) -> (r: bool)
        ensures
            r == self.is_done(*resp),
    {
        match (self, resp) {
            (AuthCall::UserAdd, RaftResponse::AuthUserAdd {  }) => true,
            (AuthCall::UserDelete, RaftResponse::AuthUserDelete {  }) => true,
            (AuthCall::UserChangePassword, RaftResponse::AuthUserChangePassword {  }) => true,
            (AuthCall::UserGrantRole, RaftResponse::AuthUserGrantRole {  }) => true,
            (AuthCall::UserRevokeRole, RaftResponse::AuthUserRevokeRole {  }) => true,
            (AuthCall::RoleAdd, RaftResponse::AuthRoleAdd {  }) => true,
            (AuthCall::RoleDelete, RaftResponse::AuthRoleDelete {  }) => true,
            (AuthCall::RoleGrantPermission, RaftResponse::AuthRoleGrantPermission {  }) => true,
            (AuthCall::RoleRevokePermission, RaftResponse::AuthRoleRevokePermission {  }) => true,
            (AuthCall::AuthEnable, RaftResponse::AuthEnable {  }) => true,
            (AuthCall::AuthDisable, RaftResponse::AuthDisable {  }) => true,
            _ => false,
        }
    }

    fn code(self) -> (r: crate::status::Code)
        ensures
            r == self.error_code(),
    {
        match self {
            AuthCall::UserAdd => crate::status::Code::AlreadyExists,
            AuthCall::RoleAdd => crate::status::Code::AlreadyExists,
            AuthCall::RoleDelete => crate::status::Code::FailedPrecondition,
            AuthCall::AuthEnable => crate::status::Code::Internal,
            AuthCall::AuthDisable => crate::status::Code::Internal,
            _ => crate::status::Code::NotFound,
        }
    }
}

/// The auth service of a node.
pub struct AuthService {
    node_id: u64,
}

impl AuthService {
    /// The node that the service answers for.
    pub closed spec fn node(&self) -> u64 {
        self.node_id
    }

    /// The header of the answers.
    pub open spec fn header_of(&self) -> ResponseHeader {
        ResponseHeader { cluster_id: 0, member_id: self.node(), revision: 0, raft_term: 0 }
    }

    pub fn new(node_id: u64) -> (r: Self)
        ensures
            r.node() == node_id,
    {
        AuthService { node_id }
    }

    fn header(&self) -> (r: ResponseHeader)
        ensures
            r == self.header_of(),
    {
        ResponseHeader { cluster_id: 0, member_id: self.node_id, revision: 0, raft_term: 0 }
    }

    /// Require root user for admin operations when auth is enabled.
    /// When auth is disabled and bootstrapped, still require root to prevent
    /// admin operations while it is off.
    pub fn require_admin(auth: &AuthInterceptor, username: Option<&str>) -> (r: Result<(), Status>)
        ensures
            crate::status::answers(
                r,
                admin_refusal(auth.enabled(), auth.ever_enabled(), super::kv::name_of(username)),
            ),
    {
        require_root(auth.is_enabled() || auth.is_bootstrapped(), username)
    }

    /// Validate a user or role name: not empty, no null bytes, max 128 bytes, no
    /// reserved prefix.
    pub fn validate_name(name: &str) -> (r: Result<(), Status>)
        ensures
            crate::status::answers(r, name_refusal(name@)),
    {
        let bytes = name.as_bytes();
        if name.is_empty() {
            return Err(Status::invalid_argument("name must not be empty"));
        }
        if bytes.len() > MAX_AUTH_NAME_LEN {
            return Err(Status::invalid_argument("name must not exceed 128 bytes"));
        }
        if contains_byte(bytes, 0) {
            return Err(Status::invalid_argument("name must not contain null bytes"));
        }
        if is_reserved(bytes) {
            return Err(
                Status::invalid_argument("name must not start with reserved prefix _aether_"),
            );
        }
        Ok(())
    }

    fn check_password(len: usize) -> (r: Result<(), Status>)
        ensures
            crate::status::answers(r, password_refusal(len as nat)),
    {
        if len < MIN_PASSWORD_LEN {
            return Err(Status::invalid_argument("password must be at least 8 characters"));
        }
        if len > MAX_PASSWORD_LEN {
            return Err(Status::invalid_argument("password must not exceed 1024 bytes"));
        }
        Ok(())
    }

    fn check_credentials(
        auth: &AuthInterceptor,
        username: Option<&str>,
        req: &UserAddRequest,
    ) -> (r: Result<(), Status>)
        ensures
            crate::status::answers(
                r,
                credentials_refusal(
                    auth.enabled(),
                    auth.ever_enabled(),
                    super::kv::name_of(username),
                    req.name@,
                    req.password@.len(),
                ),
            ),
    {
        match Self::require_admin(auth, username) {
            Err(status) => Err(status),
            Ok(()) => match Self::validate_name(req.name.as_str()) {
                Err(status) => Err(status),
                Ok(()) => Self::check_password(req.password.len()),
            },
        }
    }

    /// What is proposed for a new user. The password is stored as a hash that it
    /// is accepted for.
    pub fn user_add_request(
        &self,
        auth: &AuthInterceptor,
        username: Option<&str>,
        req: &UserAddRequest,
    ) -> (r: Result<RaftRequest, Status>)
        ensures
            ({
                let refusal = credentials_refusal(
                    auth.enabled(),
                    auth.ever_enabled(),
                    super::kv::name_of(username),
                    req.name@,
                    req.password@.len(),
                );
                match refusal {
                    Some(said) => r is Err && r->Err_0.says(said),
                    None => match r {
                        Ok(RaftRequest::AuthUserAdd { name, password_hash }) => name@
                            == crate::text::utf8(req.name@) && stores_hash(
                            password_hash@,
                            req.password@,
                        ),
                        Ok(_) => false,
                        Err(status) => hash_failure(req.password@, status),
                    },
                }
            }),
    {
        if let Err(status) = Self::check_credentials(auth, username, req) {
            return Err(status);
        }
        match User::hash_password(req.password.as_slice()) {
            Ok(hash) => {
                let password_hash = to_bytes(hash.as_str());
                assert(password_hash@ == crate::text::utf8(hash@));
                Ok(RaftRequest::AuthUserAdd { name: to_bytes(req.name.as_str()), password_hash })
            },
            Err(message) => {
                let status = Status::internal(message.as_str());
                assert(status.says((crate::status::Code::Internal, message@)));
                Err(status)
            },
        }
    }

    /// What is proposed to delete a user; root stays.
    pub fn user_delete_request(
        &self,
        auth: &AuthInterceptor,
        username: Option<&str>,
        name: &str,
    ) -> (r: Result<RaftRequest, Status>)
        ensures
            crate::status::answers(
                r,
                super::kv::first_refusal(
                    admin_refusal(
                        auth.enabled(),
                        auth.ever_enabled(),
                        super::kv::name_of(username),
                    ),
                    if name@ == "root"@ {
                        Some(
                            (crate::status::Code::PermissionDenied, "cannot delete root user"@),
                        )
                    } else {
                        None
                    },
                ),
            ),
            r matches Ok(request) ==> match request {
                RaftRequest::AuthUserDelete { name: bytes } => bytes@ == crate::text::utf8(name@),
                _ => false,
            },
    {
        if let Err(status) = Self::require_admin(auth, username) {
            return Err(status);
        }
        if same(name, "root") {
            return Err(Status::permission_denied("cannot delete root user"));
        }
        Ok(RaftRequest::AuthUserDelete { name: to_bytes(name) })
    }

    /// A user by name.
    pub fn user_get(&self, auth: &AuthInterceptor, username: Option<&str>, name: &str) -> (r: Result<
        UserGetResponse,
        Status,
    >)
        requires
            auth.wf(),
        ensures
            crate::status::answers(
                r,
                super::kv::first_refusal(
                    admin_refusal(
                        auth.enabled(),
                        auth.ever_enabled(),
                        super::kv::name_of(username),
                    ),
                    if auth.data().users.contains_key(name@) {
                        None
                    } else {
                        Some((crate::status::Code::NotFound, "user not found"@))
                    },
                ),
            ),
            r matches Ok(resp) ==> resp.header == Some(self.header_of()) && resp.user is Some
                && shows_user(auth.data().users[name@], resp.user->Some_0),
    {
        if let Err(status) = Self::require_admin(auth, username) {
            return Err(status);
        }
        match auth.cache().get_user(name) {
            Some(user) => Ok(
                UserGetResponse { header: Some(self.header()), user: Some(show_user(user)) },
            ),
            None => Err(Status::not_found("user not found")),
        }
    }

    /// All users.
    pub fn user_list(&self, auth: &AuthInterceptor, username: Option<&str>) -> (r: Result<
        UserListResponse,
        Status,
    >)
        requires
            auth.wf(),
        ensures
            crate::status::answers(
                r,
                admin_refusal(auth.enabled(), auth.ever_enabled(), super::kv::name_of(username)),
            ),
            r matches Ok(resp) ==> resp.header == Some(self.header_of()) && lists_users(
                auth.data().users,
                resp.users@,
            ),
    {
        if let Err(status) = Self::require_admin(auth, username) {
            return Err(status);
        }
        let list = auth.cache().list_users();
        let ghost all = crate::auth::cache::user_views(list@);
        let ghost held = list@;
        let mut users: Vec<AuthUser> = Vec::new();
        for user in iter: list
            invariant
                iter.seq() == held,
                all == crate::auth::cache::user_views(held),
                users@.len() == iter.index(),
                forall|j: int| 0 <= j < users@.len() ==> shows_user(#[trigger] all[j], users@[j]),
        {
            assert(all[users@.len() as int] == user@);
            users.push(show_user(user));
        }
        assert(shows_users(all, users@));
        Ok(UserListResponse { header: Some(self.header()), users })
    }

    /// What is proposed for a new password of a user.
    pub fn user_change_password_request(
        &self,
        auth: &AuthInterceptor,
        username: Option<&str>,
        req: &UserAddRequest,
    ) -> (r: Result<RaftRequest, Status>)
        ensures
            ({
                let refusal = credentials_refusal(
                    auth.enabled(),
                    auth.ever_enabled(),
                    super::kv::name_of(username),
                    req.name@,
                    req.password@.len(),
                );
                match refusal {
                    Some(said) => r is Err && r->Err_0.says(said),
                    None => match r {
                        Ok(RaftRequest::AuthUserChangePassword { name, password_hash }) => name@
                            == crate::text::utf8(req.name@) && stores_hash(
                            password_hash@,
                            req.password@,
                        ),
                        Ok(_) => false,
                        Err(status) => hash_failure(req.password@, status),
                    },
                }
            }),
    {
        if let Err(status) = Self::check_credentials(auth, username, req) {
            return Err(status);
        }
        match User::hash_password(req.password.as_slice()) {
            Ok(hash) => {
                let password_hash = to_bytes(hash.as_str());
                assert(password_hash@ == crate::text::utf8(hash@));
                Ok(
                    RaftRequest::AuthUserChangePassword {
                        name: to_bytes(req.name.as_str()),
                        password_hash,
                    },
                )
            },
            Err(message) => {
                let status = Status::internal(message.as_str());
                assert(status.says((crate::status::Code::Internal, message@)));
                Err(status)
            },
        }
    }

    /// What is proposed to give a user a role.
    pub fn user_grant_role_request(
        &self,
        auth: &AuthInterceptor,
        username: Option<&str>,
        req: &UserRoleRequest,
    ) -> (r: Result<RaftRequest, Status>)
        ensures
            crate::status::answers(
                r,
                admin_refusal(auth.enabled(), auth.ever_enabled(), super::kv::name_of(username)),
            ),
            r matches Ok(request) ==> match request {
                RaftRequest::AuthUserGrantRole { user, role } => user@ == crate::text::utf8(
                    req.user@,
                ) && role@ == crate::text::utf8(req.role@),
                _ => false,
            },
    {
        if let Err(status) = Self::require_admin(auth, username) {
            return Err(status);
        }
        Ok(
            RaftRequest::AuthUserGrantRole {
                user: to_bytes(req.user.as_str()),
                role: to_bytes(req.role.as_str()),
            },
        )
    }

    /// What is proposed to take a role from a user.
    pub fn user_revoke_role_request(
        &self,
        auth: &AuthInterceptor,
        username: Option<&str>,
        req: &UserRoleRequest,
    ) -> (r: Result<RaftRequest, Status>)
        ensures
            crate::status::answers(
                r,
                admin_refusal(auth.enabled(), auth.ever_enabled(), super::kv::name_of(username)),
            ),
            r matches Ok(request) ==> match request {
                RaftRequest::AuthUserRevokeRole { user, role } => user@ == crate::text::utf8(
                    req.user@,
                ) && role@ == crate::text::utf8(req.role@),
                _ => false,
            },
    {
        if let Err(status) = Self::require_admin(auth, username) {
            return Err(status);
        }
        Ok(
            RaftRequest::AuthUserRevokeRole {
                user: to_bytes(req.user.as_str()),
                role: to_bytes(req.role.as_str()),
            },
        )
    }

    /// What is proposed for a new role.
    pub fn role_add_request(
        &self,
        auth: &AuthInterceptor,
        username: Option<&str>,
        name: &str,
    ) -> (r: Result<RaftRequest, Status>)
        ensures
            crate::status::answers(
                r,
                super::kv::first_refusal(
                    admin_refusal(
                        auth.enabled(),
                        auth.ever_enabled(),
                        super::kv::name_of(username),
                    ),
                    name_refusal(name@),
                ),
            ),
            r matches Ok(request) ==> match request {
                RaftRequest::AuthRoleAdd { name: bytes } => bytes@ == crate::text::utf8(name@),
                _ => false,
            },
    {
        if let Err(status) = Self::require_admin(auth, username) {
            return Err(status);
        }
        if let Err(status) = Self::validate_name(name) {
            return Err(status);
        }
        Ok(RaftRequest::AuthRoleAdd { name: to_bytes(name) })
    }

    /// What is proposed to delete a role.
    pub fn role_delete_request(
        &self,
        auth: &AuthInterceptor,
        username: Option<&str>,
        name: &str,
    ) -> (r: Result<RaftRequest, Status>)
        ensures
            crate::status::answers(
                r,
                admin_refusal(auth.enabled(), auth.ever_enabled(), super::kv::name_of(username)),
            ),
            r matches Ok(request) ==> match request {
                RaftRequest::AuthRoleDelete { name: bytes } => bytes@ == crate::text::utf8(name@),
                _ => false,
            },
    {
        if let Err(status) = Self::require_admin(auth, username) {
            return Err(status);
        }
        Ok(RaftRequest::AuthRoleDelete { name: to_bytes(name) })
    }

    /// A role by name.
    pub fn role_get(&self, auth: &AuthInterceptor, username: Option<&str>, name: &str) -> (r: Result<
        RoleGetResponse,
        Status,
    >)
        requires
            auth.wf(),
        ensures
            crate::status::answers(
                r,
                super::kv::first_refusal(
                    admin_refusal(
                        auth.enabled(),
                        auth.ever_enabled(),
                        super::kv::name_of(username),
                    ),
                    if auth.data().roles.contains_key(name@) {
                        None
                    } else {
                        Some((crate::status::Code::NotFound, "role not found"@))
                    },
                ),
            ),
            r matches Ok(resp) ==> resp.header == Some(self.header_of()) && resp.role is Some
                && shows_role(auth.data().roles[name@], resp.role->Some_0),
    {
        if let Err(status) = Self::require_admin(auth, username) {
            return Err(status);
        }
        match auth.cache().get_role(name) {
            Some(role) => Ok(
                RoleGetResponse { header: Some(self.header()), role: Some(show_role(role)) },
            ),
            None => Err(Status::not_found("role not found")),
        }
    }

    /// All roles.
    pub fn role_list(&self, auth: &AuthInterceptor, username: Option<&str>) -> (r: Result<
        RoleListResponse,
        Status,
    >)
        requires
            auth.wf(),
        ensures
            crate::status::answers(
                r,
                admin_refusal(auth.enabled(), auth.ever_enabled(), super::kv::name_of(username)),
            ),
            r matches Ok(resp) ==> resp.header == Some(self.header_of()) && lists_roles(
                auth.data().roles,
                resp.roles@,
            ),
    {
        if let Err(status) = Self::require_admin(auth, username) {
            return Err(status);
        }
        let list = auth.cache().list_roles();
        let ghost all = crate::auth::cache::role_views(list@);
        let ghost held = list@;
        let mut roles: Vec<AuthRole> = Vec::new();
        for role in iter: list
            invariant
                iter.seq() == held,
                all == crate::auth::cache::role_views(held),
                roles@.len() == iter.index(),
                forall|j: int| 0 <= j < roles@.len() ==> shows_role(#[trigger] all[j], roles@[j]),
        {
            assert(all[roles@.len() as int] == role@);
            roles.push(show_role(role));
        }
        assert(shows_roles(all, roles@));
        Ok(RoleListResponse { header: Some(self.header()), roles })
    }

    fn meant_permission(permission: Option<crate::proto::Permission>) -> (r: Result<
        Permission,
        Status,
    >)
        ensures
            crate::status::answers(r, permission_refusal(permission)),
            r matches Ok(p) ==> means(permission->Some_0, p),
    {
        match permission {
            None => Err(Status::invalid_argument("permission required")),
            Some(p) => {
                let perm_type = match p.perm_type {
                    Some(crate::proto::PermissionType::Read) => PermissionType::Read,
                    Some(crate::proto::PermissionType::Write) => PermissionType::Write,
                    Some(crate::proto::PermissionType::Readwrite) => PermissionType::Readwrite,
                    None => {
                        return Err(Status::invalid_argument("invalid permission type"));
                    },
                };
                Ok(Permission { perm_type, key: p.key, range_end: p.range_end })
            },
        }
    }

    /// What is proposed to give a role a permission.
    pub fn role_grant_permission_request(
        &self,
        auth: &AuthInterceptor,
        username: Option<&str>,
        req: RolePermissionRequest,
    ) -> (r: Result<RaftRequest, Status>)
        ensures
            crate::status::answers(
                r,
                super::kv::first_refusal(
                    admin_refusal(
                        auth.enabled(),
                        auth.ever_enabled(),
                        super::kv::name_of(username),
                    ),
                    permission_refusal(req.permission),
                ),
            ),
            r matches Ok(request) ==> match request {
                RaftRequest::AuthRoleGrantPermission { role, permission } => role@
                    == crate::text::utf8(req.role@) && means(req.permission->Some_0, permission),
                _ => false,
            },
    {
        if let Err(status) = Self::require_admin(auth, username) {
            return Err(status);
        }
        match Self::meant_permission(req.permission) {
            Err(status) => Err(status),
            Ok(permission) => Ok(
                RaftRequest::AuthRoleGrantPermission {
                    role: to_bytes(req.role.as_str()),
                    permission,
                },
            ),
        }
    }

    /// What is proposed to take a permission from a role.
    pub fn role_revoke_permission_request(
        &self,
        auth: &AuthInterceptor,
        username: Option<&str>,
        req: RolePermissionRequest,
    ) -> (r: Result<RaftRequest, Status>)
        ensures
            crate::status::answers(
                r,
                super::kv::first_refusal(
                    admin_refusal(
                        auth.enabled(),
                        auth.ever_enabled(),
                        super::kv::name_of(username),
                    ),
                    permission_refusal(req.permission),
                ),
            ),
            r matches Ok(request) ==> match request {
                RaftRequest::AuthRoleRevokePermission { role, permission } => role@
                    == crate::text::utf8(req.role@) && means(req.permission->Some_0, permission),
                _ => false,
            },
    {
        if let Err(status) = Self::require_admin(auth, username) {
            return Err(status);
        }
        match Self::meant_permission(req.permission) {
            Err(status) => Err(status),
            Ok(permission) => Ok(
                RaftRequest::AuthRoleRevokePermission {
                    role: to_bytes(req.role.as_str()),
                    permission,
                },
            ),
        }
    }

    /// Gives a token to a user who knows the password, issued at the given time in
    /// milliseconds. A failed attempt is counted, and a user who is locked out is
    /// refused; a disabled user and an unknown one are refused as if the password
    /// were wrong.
    pub fn authenticate_on(
        &self,
        auth: &mut AuthInterceptor,
        req: &AuthenticateRequest,
        now: u64,
        millis: Option<u128>,
    ) -> (r: Result<AuthenticateResponse, Status>)
        requires
            old(auth).wf(),
        ensures
            final(auth).wf(),
            final(auth).same_but_failures(old(auth)),
            authenticated(
                self.header_of(),
                old(auth),
                req,
                now,
                millis,
                final(auth).failed(),
                r,
            ),
    {
        if !auth.is_enabled() {
            return Err(Status::failed_precondition("auth is not enabled"));
        }
        if req.password.len() > MAX_PASSWORD_LEN {
            return Err(Status::invalid_argument("password must not exceed 1024 bytes"));
        }
        // Check rate limit before attempting authentication
        if let Some(remaining) = auth.is_locked_out(req.name.as_str(), now) {
            return Err(
                Status::resource_exhausted(
                    join3(
                        "account locked, try again in ",
                        format_u64(remaining).as_str(),
                        "s",
                    ).as_str(),
                ),
            );
        }
        let accepted = match auth.cache().find_user(req.name.as_str()) {
            Some(user) => user.enabled && user.verify_password(req.password.as_slice()),
            None => false,
        };
        if !accepted {
            auth.record_failure(req.name.as_str(), now);
            return Err(Status::unauthenticated("invalid credentials"));
        }
        // Authentication succeeded: clear failure count
        auth.clear_failures(req.name.as_str());
        match auth.tokens().create_token_on(req.name.as_str(), millis) {
            Ok(token) => Ok(AuthenticateResponse { header: Some(self.header()), token }),
            Err(message) => Err(Status::internal(message.as_str())),
        }
    }

    /// Gives a token to a user who knows the password, issued at the time that the
    /// system clock shows.
    pub fn authenticate(
        &self,
        auth: &mut AuthInterceptor,
        req: &AuthenticateRequest,
        now: u64,
    ) -> (r: Result<AuthenticateResponse, Status>)
        requires
            old(auth).wf(),
        ensures
            final(auth).wf(),
            final(auth).same_but_failures(old(auth)),
            exists|millis: Option<u128>|
                crate::clock::is_reading(millis) && #[trigger] authenticated(
                    self.header_of(),
                    old(auth),
                    req,
                    now,
                    millis,
                    final(auth).failed(),
                    r,
                ),
    {
        let millis = unix_millis();
        self.authenticate_on(auth, req, now, millis)
    }

    /// What is proposed to turn authentication on. Attempts are counted under a
    /// name of their own.
    pub fn auth_enable_request(
        &self,
        auth: &AuthInterceptor,
        username: Option<&str>,
        root_password: &[u8],
        now: u64,
    ) -> (r: Result<RaftRequest, Status>)
        requires
            auth.wf(),
        ensures
            match enable_refusal(auth, super::kv::name_of(username), root_password@.len(), now) {
                Some(refusal) => r is Err && r->Err_0.says(refusal),
                None => match r {
                    Ok(RaftRequest::AuthEnable { root_password_hash }) => stores_hash(
                        root_password_hash@,
                        root_password@,
                    ),
                    Ok(_) => false,
                    Err(status) => hash_failure(root_password@, status),
                },
            },
    {
        if auth.is_bootstrapped() {
            if let Err(status) = Self::require_admin(auth, username) {
                return Err(status);
            }
        }
        if let Some(remaining) = auth.is_locked_out(AUTH_ENABLE_NAME, now) {
            return Err(
                Status::resource_exhausted(
                    join3(
                        "too many attempts, try again in ",
                        format_u64(remaining).as_str(),
                        "s",
                    ).as_str(),
                ),
            );
        }
        if root_password.len() < MIN_PASSWORD_LEN {
            return Err(Status::invalid_argument("root password must be at least 8 characters"));
        }
        if root_password.len() > MAX_PASSWORD_LEN {
            return Err(Status::invalid_argument("root password must not exceed 1024 bytes"));
        }
        match User::hash_password(root_password) {
            Ok(hash) => {
                let root_password_hash = to_bytes(hash.as_str());
                assert(root_password_hash@ == crate::text::utf8(hash@));
                Ok(RaftRequest::AuthEnable { root_password_hash })
            },
            Err(message) => {
                let status = Status::internal(message.as_str());
                assert(status.says((crate::status::Code::Internal, message@)));
                Err(status)
            },
        }
    }

    /// What turning authentication on is answered. An attempt that the state
    /// machine did not carry out is counted.
    pub fn auth_enable_response(
        &self,
        auth: &mut AuthInterceptor,
        resp: Result<RaftResponse, Status>,
        now: u64,
    ) -> (r: Result<DoneResponse, Status>)
        requires
            old(auth).wf(),
        ensures
            final(auth).wf(),
            final(auth).same_but_failures(old(auth)),
            match resp {
                Err(status) => r is Err && r->Err_0 == status,
                Ok(answer) => crate::status::answers(r, AuthCall::AuthEnable.refusal(answer)),
            },
            r matches Ok(done) ==> done.header == Some(self.header_of()),
            final(auth).failed() == if resp is Err || resp->Ok_0 is Error {
                crate::auth::interceptor::failures_after(
                    old(auth).failed(),
                    AUTH_ENABLE_NAME@,
                    now,
                )
            } else {
                old(auth).failed()
            },
    {
        match resp {
            Err(status) => {
                auth.record_failure(AUTH_ENABLE_NAME, now);
                Err(status)
            },
            Ok(answer) => {
                if let RaftResponse::Error { message: _ } = &answer {
                    auth.record_failure(AUTH_ENABLE_NAME, now);
                }
                self.done_response(AuthCall::AuthEnable, answer)
            },
        }
    }

    /// What is proposed to turn authentication off.
    pub fn auth_disable_request(&self, auth: &AuthInterceptor, username: Option<&str>) -> (r: Result<
        RaftRequest,
        Status,
    >)
        ensures
            crate::status::answers(
                r,
                admin_refusal(auth.enabled(), auth.ever_enabled(), super::kv::name_of(username)),
            ),
            r matches Ok(request) ==> request == (RaftRequest::AuthDisable {  }),
    {
        if let Err(status) = Self::require_admin(auth, username) {
            return Err(status);
        }
        Ok(RaftRequest::AuthDisable {  })
    }

    /// What a request that the state machine answered is answered.
    pub fn done_response(&self, call: AuthCall, resp: RaftResponse) -> (r: Result<
        DoneResponse,
        Status,
    >)
        ensures
            crate::status::answers(r, call.refusal(resp)),
            r matches Ok(done) ==> done.header == Some(self.header_of()),
    {
        if call.done(&resp) {
            return Ok(DoneResponse { header: Some(self.header()) });
        }
        match resp {
            RaftResponse::Error { message } => Err(Status::new(call.code(), message.as_str())),
            _ => Err(Status::internal("unexpected response")),
        }
    }

    /// Whether authentication is on.
    pub fn auth_status(&self, auth: &AuthInterceptor) -> (r: AuthStatusResponse)
        ensures
            r == (AuthStatusResponse {
                header: Some(self.header_of()),
                enabled: auth.enabled(),
            }),
    {
        AuthStatusResponse { header: Some(self.header()), enabled: auth.is_enabled() }
    }
}

/// The list shows the users by name.
pub open spec fn lists_users(
    users: Map<Seq<char>, crate::auth::user::UserData>,
    shown: Seq<AuthUser>,
) -> bool {
    exists|list: Seq<crate::auth::user::UserData>|
        crate::auth::cache::lists(users, list) && #[trigger] shows_users(list, shown)
}

/// The list shows the roles by name.
pub open spec fn lists_roles(
    roles: Map<Seq<char>, crate::auth::role::RoleData>,
    shown: Seq<AuthRole>,
) -> bool {
    exists|list: Seq<crate::auth::role::RoleData>|
        crate::auth::cache::lists(roles, list) && #[trigger] shows_roles(list, shown)
}

/// With what a permission in a request is refused.
pub open spec fn permission_refusal(permission: Option<crate::proto::Permission>) -> Option<
    crate::status::Refusal,
> {
    match permission {
        None => Some((crate::status::Code::InvalidArgument, "permission required"@)),
        Some(p) => if p.perm_type is None {
            Some((crate::status::Code::InvalidArgument, "invalid permission type"@))
        } else {
            None
        },
    }
}

/// The permission that a client means.
pub open spec fn means(asked: crate::proto::Permission, p: Permission) -> bool {
    &&& asked.perm_type is Some
    &&& p.perm_type == meant_type(asked.perm_type->Some_0)
    &&& p.key == asked.key
    &&& p.range_end == asked.range_end
}

/// With what an attempt to authenticate is refused.
pub open spec fn attempt_refusal(
    auth: &AuthInterceptor,
    name: Seq<char>,
    password: Seq<u8>,
    now: u64,
) -> Option<crate::status::Refusal> {
    let locked = crate::auth::interceptor::locked_for(auth.failed(), name, now);
    let users = auth.data().users;
    if !auth.enabled() {
        Some((crate::status::Code::FailedPrecondition, "auth is not enabled"@))
    } else if password.len() > MAX_PASSWORD_LEN {
        Some((crate::status::Code::InvalidArgument, "password must not exceed 1024 bytes"@))
    } else if locked is Some {
        Some(
            (
                crate::status::Code::ResourceExhausted,
                crate::auth::interceptor::lockout_message(locked->Some_0),
            ),
        )
    } else if users.contains_key(name) && users[name].enabled
        && crate::auth::user::argon2_accepts(users[name].password_hash, password) {
        None
    } else {
        Some((crate::status::Code::Unauthenticated, "invalid credentials"@))
    }
}

/// What an attempt to authenticate is answered at a time in milliseconds, and what
/// is counted of failed attempts after it. An attempt that is not refused is
/// answered with the token that is issued at that time.
pub open spec fn authenticated(
    header: ResponseHeader,
    auth: &AuthInterceptor,
    req: &AuthenticateRequest,
    now: u64,
    millis: Option<u128>,
    failed: Map<Seq<char>, crate::auth::interceptor::FailureRecord>,
    r: Result<AuthenticateResponse, Status>,
) -> bool {
    match attempt_refusal(auth, req.name@, req.password@, now) {
        Some(refusal) => {
            &&& r is Err
            &&& r->Err_0.says(refusal)
            &&& failed == if refusal.0 == crate::status::Code::Unauthenticated {
                crate::auth::interceptor::failures_after(auth.failed(), req.name@, now)
            } else {
                auth.failed()
            }
        },
        None => {
            &&& failed == auth.failed().remove(req.name@)
            &&& match crate::auth::token::issued(auth.secret(), auth.hours(), req.name@, millis) {
                Ok(token) => {
                    &&& r is Ok
                    &&& r->Ok_0.header == Some(header)
                    &&& r->Ok_0.token@ == token
                    &&& crate::auth::token::created(auth.secret(), auth.hours(), req.name@, token)
                },
                Err(message) => r is Err && r->Err_0.says(
                    (crate::status::Code::Internal, message),
                ),
            }
        },
    }
}

/// With what an attempt to turn authentication on is refused. Once it was on,
/// root is needed.
pub open spec fn enable_refusal(
    auth: &AuthInterceptor,
    username: Option<Seq<char>>,
    password_len: nat,
    now: u64,
) -> Option<crate::status::Refusal> {
    let locked = crate::auth::interceptor::locked_for(auth.failed(), AUTH_ENABLE_NAME@, now);
    if auth.ever_enabled() && super::guard::root_refusal(true, username) is Some {
        super::guard::root_refusal(true, username)
    } else if locked is Some {
        Some(
            (
                crate::status::Code::ResourceExhausted,
                "too many attempts, try again in "@ + crate::text::decimal(
                    locked->Some_0 as nat,
                ) + "s"@,
            ),
        )
    } else {
        root_password_refusal(password_len)
    }
}

/// Once authentication was on, nobody but root gets an administrative request
/// through, and nobody but root can turn it on again.
pub proof fn bootstrapped_needs_root(
    auth: &AuthInterceptor,
    username: Option<Seq<char>>,
    password_len: nat,
    now: u64,
)
    requires
        auth.ever_enabled(),
        username != Some("root"@),
    ensures
        admin_refusal(auth.enabled(), auth.ever_enabled(), username) is Some,
        enable_refusal(auth, username, password_len, now) is Some,
{
}

/// An unknown user, a disabled one and a wrong password are refused alike.
pub proof fn refusals_look_alike(
    auth: &AuthInterceptor,
    a: Seq<char>,
    b: Seq<char>,
    password: Seq<u8>,
    now: u64,
)
    requires
        attempt_refusal(auth, a, password, now) is Some,
        attempt_refusal(auth, b, password, now) is Some,
        crate::auth::interceptor::locked_for(auth.failed(), a, now) is None,
        crate::auth::interceptor::locked_for(auth.failed(), b, now) is None,
    ensures
        attempt_refusal(auth, a, password, now) == attempt_refusal(auth, b, password, now),
{
}

/// Every answer is headed with the node that gives it, and with no cluster, no
/// revision and no term.
pub proof fn answers_name_the_node(service: AuthService)
    ensures
        service.header_of().member_id == service.node(),
        service.header_of().cluster_id == 0,
        service.header_of().revision == 0,
        service.header_of().raft_term == 0,
{
}

/// A name of a user or a role is accepted if and only if it has from 1 to 128
/// bytes, none of them zero, and does not begin with the reserved prefix.
pub proof fn accepted_auth_names(name: Seq<char>)
    ensures
        ({
            let bytes = vstd::utf8::encode_utf8(name);
            name_refusal(name) is None <==> {
                &&& name.len() > 0
                &&& bytes.len() <= 128
                &&& forall|i: int| 0 <= i < bytes.len() ==> bytes[i] != 0
                &&& !crate::names::begins_reserved(bytes)
            }
        }),
        name_refusal(name) matches Some(said) ==> said.0 == crate::status::Code::InvalidArgument,
{
    let bytes = vstd::utf8::encode_utf8(name);
    crate::names::faults_are_there(bytes, 128);
    if name.len() > 0 && bytes.len() == 0 {
        vstd::utf8::encode_utf8_decode_utf8(name);
        vstd::utf8::encode_utf8_decode_utf8(Seq::<char>::empty());
        reveal_with_fuel(vstd::utf8::encode_utf8, 2);
        assert(bytes =~= vstd::utf8::encode_utf8(Seq::<char>::empty()));
    }
}

/// A password is accepted if and only if it has from 8 to 1024 bytes.
pub proof fn accepted_passwords(len: nat)
    ensures
        password_refusal(len) is None <==> 8 <= len <= 1024,
        root_password_refusal(len) is None <==> 8 <= len <= 1024,
        password_refusal(len) matches Some(said) ==> said.0
            == crate::status::Code::InvalidArgument,
        root_password_refusal(len) matches Some(said) ==> said.0
            == crate::status::Code::InvalidArgument,
{
}

/// Users and roles are changed by root alone, except before authentication was
/// ever turned on.
pub proof fn only_root_administers(
    enabled: bool,
    bootstrapped: bool,
    username: Option<Seq<char>>,
    name: Seq<char>,
    len: nat,
)
    ensures
        admin_refusal(enabled, bootstrapped, username) is None <==> (!enabled && !bootstrapped)
            || username == Some("root"@),
        credentials_refusal(enabled, bootstrapped, username, name, len) is None <==> {
            &&& (!enabled && !bootstrapped) || username == Some("root"@)
            &&& name_refusal(name) is None
            &&& 8 <= len <= 1024
        },
        admin_refusal(enabled, bootstrapped, username) is Some ==> credentials_refusal(
            enabled,
            bootstrapped,
            username,
            name,
            len,
        ) == admin_refusal(enabled, bootstrapped, username),
{
}

/// Permission types are shown and understood under their own names.
pub proof fn permission_types_keep_their_names(
    t: PermissionType,
    asked: crate::proto::PermissionType,
)
    ensures
        shown_type(t) is Read <==> t is Read,
        shown_type(t) is Write <==> t is Write,
        shown_type(t) is Readwrite <==> t is Readwrite,
        meant_type(asked) is Read <==> asked is Read,
        meant_type(asked) is Write <==> asked is Write,
        meant_type(asked) is Readwrite <==> asked is Readwrite,
{
}

/// A permission is granted with the key, the range and the type that were asked
/// for, and shown with those that were granted. Without a permission or a type
/// there is nothing to grant.
pub proof fn permissions_are_what_was_asked(
    asked: crate::proto::Permission,
    p: Permission,
    shown: crate::proto::Permission,
)
    requires
        means(asked, p),
        shows_permission(p@, shown),
    ensures
        p.key@ == asked.key@,
        p.range_end@ == asked.range_end@,
        p.perm_type is Read <==> asked.perm_type->Some_0 is Read,
        p.perm_type is Write <==> asked.perm_type->Some_0 is Write,
        p.perm_type is Readwrite <==> asked.perm_type->Some_0 is Readwrite,
        shown.key@ == asked.key@,
        shown.range_end@ == asked.range_end@,
        shown.perm_type is Some,
        shown.perm_type->Some_0 is Read <==> asked.perm_type->Some_0 is Read,
        shown.perm_type->Some_0 is Write <==> asked.perm_type->Some_0 is Write,
        permission_refusal(Some(asked)) is None,
        permission_refusal(None) is Some,
        permission_refusal(Some(crate::proto::Permission { perm_type: None, ..asked })) is Some,
{
}

/// A user is shown with their own name, roles and state, and a role with its own
/// name and its permissions in order.
pub proof fn users_and_roles_are_shown(
    user: crate::auth::user::UserData,
    shown_user: AuthUser,
    role: crate::auth::role::RoleData,
    shown_role: AuthRole,
    i: int,
)
    requires
        shows_user(user, shown_user),
        shows_role(role, shown_role),
    ensures
        shown_user.name@ == user.name,
        shown_user.enabled == user.enabled,
        shown_user.roles@.len() == user.roles.len(),
        0 <= i < user.roles.len() ==> shown_user.roles@[i]@ == user.roles[i],
        shown_role.name@ == role.name,
        shown_role.permissions@.len() == role.permissions.len(),
        0 <= i < role.permissions.len() ==> {
            &&& shown_role.permissions@[i].key@ == role.permissions[i].key
            &&& shown_role.permissions@[i].range_end@ == role.permissions[i].range_end
            &&& shown_role.permissions@[i].perm_type is Some
            &&& shown_role.permissions@[i].perm_type->Some_0 is Read
                <==> role.permissions[i].perm_type is Read
            &&& shown_role.permissions@[i].perm_type->Some_0 is Write
                <==> role.permissions[i].perm_type is Write
        },
{
    if 0 <= i < user.roles.len() {
        assert(crate::text::texts(shown_user.roles@)[i] == shown_user.roles@[i]@);
    }
    if 0 <= i < role.permissions.len() {
        assert(shows_permission(role.permissions[i], shown_role.permissions@[i]));
    }
}

/// Every user and every role there is is listed, and nobody else.
pub proof fn lists_are_complete(
    users: Map<Seq<char>, crate::auth::user::UserData>,
    shown_users: Seq<AuthUser>,
    roles: Map<Seq<char>, crate::auth::role::RoleData>,
    shown_roles: Seq<AuthRole>,
    name: Seq<char>,
)
    requires
        lists_users(users, shown_users),
        lists_roles(roles, shown_roles),
        (crate::auth::cache::AuthData { users, roles }).named(),
    ensures
        users.contains_key(name) <==> exists|i: int|
            0 <= i < shown_users.len() && (#[trigger] shown_users[i]).name@ == name,
        roles.contains_key(name) <==> exists|i: int|
            0 <= i < shown_roles.len() && (#[trigger] shown_roles[i]).name@ == name,
{
    let data = crate::auth::cache::AuthData { users, roles };
    let list = choose|list: Seq<crate::auth::user::UserData>|
        crate::auth::cache::lists(users, list) && #[trigger] shows_users(list, shown_users);
    let names = choose|names: Seq<Seq<char>>| crate::auth::cache::lists_under(users, names, list);
    assert forall|i: int| 0 <= i < shown_users.len() implies (#[trigger] shown_users[i]).name@
        == names[i] by {
        assert(shows_user(list[i], shown_users[i]));
        assert(names.to_set().contains(names[i]));
        assert(users.dom().contains(names[i]));
        assert(list[i] == users[names[i]]);
        assert(data.users.contains_key(names[i]));
    }
    if users.contains_key(name) {
        assert(names.to_set().contains(name));
        let i = names.index_of(name);
        assert(shown_users[i].name@ == name);
    }
    let list = choose|list: Seq<crate::auth::role::RoleData>|
        crate::auth::cache::lists(roles, list) && #[trigger] shows_roles(list, shown_roles);
    let names = choose|names: Seq<Seq<char>>| crate::auth::cache::lists_under(roles, names, list);
    assert forall|i: int| 0 <= i < shown_roles.len() implies (#[trigger] shown_roles[i]).name@
        == names[i] by {
        assert(shows_role(list[i], shown_roles[i]));
        assert(names.to_set().contains(names[i]));
        assert(roles.dom().contains(names[i]));
        assert(list[i] == roles[names[i]]);
        assert(data.roles.contains_key(names[i]));
    }
    if roles.contains_key(name) {
        assert(names.to_set().contains(name));
        let i = names.index_of(name);
        assert(shown_roles[i].name@ == name);
    }
}

impl AuthCall {
    /// Every call is done by the answer that is named after it and by no other, and
    /// only what is not done is refused: an error with its own message, and any
    /// other answer as an internal error.
    pub proof fn calls_are_done_by_their_answer(self, resp: RaftResponse)
        ensures
            AuthCall::UserAdd.is_done(resp) <==> resp is AuthUserAdd,
            AuthCall::UserDelete.is_done(resp) <==> resp is AuthUserDelete,
            AuthCall::UserChangePassword.is_done(resp) <==> resp is AuthUserChangePassword,
            AuthCall::UserGrantRole.is_done(resp) <==> resp is AuthUserGrantRole,
            AuthCall::UserRevokeRole.is_done(resp) <==> resp is AuthUserRevokeRole,
            AuthCall::RoleAdd.is_done(resp) <==> resp is AuthRoleAdd,
            AuthCall::RoleDelete.is_done(resp) <==> resp is AuthRoleDelete,
            AuthCall::RoleGrantPermission.is_done(resp) <==> resp is AuthRoleGrantPermission,
            AuthCall::RoleRevokePermission.is_done(resp) <==> resp is AuthRoleRevokePermission,
            AuthCall::AuthEnable.is_done(resp) <==> resp is AuthEnable,
            AuthCall::AuthDisable.is_done(resp) <==> resp is AuthDisable,
            self.refusal(resp) is None <==> self.is_done(resp),
            resp matches RaftResponse::Error { message } ==> {
                &&& self.refusal(resp) matches Some(said)
                &&& said.1 == message@
                &&& said.0 is AlreadyExists <==> self is UserAdd || self is RoleAdd
                &&& said.0 is FailedPrecondition <==> self is RoleDelete
                &&& said.0 is Internal <==> self is AuthEnable || self is AuthDisable
                &&& said.0 is NotFound <==> !(self is UserAdd || self is RoleAdd
                    || self is RoleDelete || self is AuthEnable || self is AuthDisable)
            },
            !(resp is Error) && !self.is_done(resp) ==> {
                &&& self.refusal(resp) matches Some(said)
                &&& said.0 is Internal
            },
    {
    }
}

/// An attempt succeeds if and only if authentication is on, the name is not locked
/// out, and it is that of an enabled user whose stored hash accepts the password. A
/// lockout is told even to who knows the password.
pub proof fn attempts_need_the_password(
    auth: &AuthInterceptor,
    name: Seq<char>,
    password: Seq<u8>,
    now: u64,
)
    ensures
        ({
            let refusal = attempt_refusal(auth, name, password, now);
            let users = auth.data().users;
            let locked = crate::auth::interceptor::locked_for(auth.failed(), name, now) is Some;
            &&& refusal is None <==> {
                &&& auth.enabled()
                &&& password.len() <= 1024
                &&& !locked
                &&& users.contains_key(name)
                &&& users[name].enabled
                &&& crate::auth::user::argon2_accepts(users[name].password_hash, password)
            }
            &&& (refusal matches Some(said) && said.0 is FailedPrecondition) <==> !auth.enabled()
            &&& auth.enabled() && password.len() <= 1024 && locked ==> (refusal matches Some(said)
                && said.0 is ResourceExhausted)
            &&& auth.enabled() && password.len() <= 1024 && !locked && refusal is Some ==> (
            refusal matches Some(said) && said.0 is Unauthenticated)
        }),
{
}

/// A user who is let in has a token for their own name and no failures any more;
/// one who is not, because of a wrong name or password, has one more. Other
/// refusals count nothing.
pub proof fn only_wrong_credentials_count(
    header: ResponseHeader,
    auth: &AuthInterceptor,
    req: &AuthenticateRequest,
    now: u64,
    millis: Option<u128>,
    failed: Map<Seq<char>, crate::auth::interceptor::FailureRecord>,
    r: Result<AuthenticateResponse, Status>,
)
    requires
        authenticated(header, auth, req, now, millis, failed, r),
    ensures
        r matches Ok(resp) ==> {
            &&& attempt_refusal(auth, req.name@, req.password@, now) is None
            &&& resp.header == Some(header)
            &&& crate::auth::token::created(auth.secret(), auth.hours(), req.name@, resp.token@)
            &&& !failed.contains_key(req.name@)
        },
        r matches Err(status) && status.code is Unauthenticated ==> failed
            == crate::auth::interceptor::failures_after(auth.failed(), req.name@, now),
        attempt_refusal(auth, req.name@, req.password@, now) matches Some(said) && !(
        said.0 is Unauthenticated) ==> failed == auth.failed() && r is Err,
        forall|other: Seq<char>|
            other != req.name@ && #[trigger] failed.contains_key(other) ==> auth.failed().contains_key(
                other,
            ) && failed[other] == auth.failed()[other],
{
}

/// Authentication is turned on if and only if it was never on before or root asks
/// for it, there is no lockout, and the password has from 8 to 1024 bytes.
pub proof fn who_may_enable(
    auth: &AuthInterceptor,
    username: Option<Seq<char>>,
    password_len: nat,
    now: u64,
)
    ensures
        enable_refusal(auth, username, password_len, now) is None <==> {
            &&& !auth.ever_enabled() || username == Some("root"@)
            &&& crate::auth::interceptor::locked_for(
                auth.failed(),
                "__auth_enable__"@,
                now,
            ) is None
            &&& 8 <= password_len <= 1024
        },
{
}

/// A hash that is stored for a password accepts that password, and a failure to
/// hash is an internal error.
pub proof fn stored_hashes_accept_the_password(
    stored: Seq<u8>,
    password: Seq<u8>,
    status: Status,
)
    ensures
        stores_hash(stored, password) ==> exists|hash: Seq<char>|
            stored == #[trigger] vstd::utf8::encode_utf8(hash)
                && crate::auth::user::argon2_accepts(hash, password),
        hash_failure(password, status) ==> status.code is Internal,
{
    if stores_hash(stored, password) {
        let hash = choose|hash: Seq<char>|
            stored == #[trigger] crate::text::utf8(hash) && crate::auth::user::argon2_accepts(
                hash,
                password,
            );
        assert(stored == vstd::utf8::encode_utf8(hash));
    }
}

} // verus!
