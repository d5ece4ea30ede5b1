//! Access control: users, roles, tokens and permission checks.

use vstd::prelude::*;

use crate::bytes::{ascii_bytes, concat};

pub mod cache;
pub mod interceptor;
pub mod role;
pub mod token;
pub mod user;

pub use self::cache::AuthCache;
pub use self::interceptor::AuthInterceptor;
pub use self::role::{extract_txn_keys, Permission, PermissionType, Role};
pub use self::token::TokenValidator;
pub use self::user::User;

verus! {

/// Key prefix for user data in storage
pub const USER_KEY_PREFIX: &'static str = "_aether_auth/user/";

/// Key prefix for role data in storage
pub const ROLE_KEY_PREFIX: &'static str = "_aether_auth/role/";

/// Key for the auth enabled flag in storage
pub const AUTH_ENABLED_KEY: &'static str = "_aether_auth/enabled";

/// Key for the auth bootstrapped flag: set once when authentication is first
/// enabled, never cleared. Prevents unauthenticated re-enable after it was
/// disabled.
pub const AUTH_BOOTSTRAPPED_KEY: &'static str = "_aether_auth/bootstrapped";

/// The bytes that every user key begins with.
pub open spec fn user_prefix() -> Seq<u8> {
    crate::bytes::ascii(USER_KEY_PREFIX@)
}

/// The bytes that every role key begins with.
pub open spec fn role_prefix() -> Seq<u8> {
    crate::bytes::ascii(ROLE_KEY_PREFIX@)
}

/// Encode a user storage key
pub fn user_key(name: &str) -> (r: Vec<u8>)
    ensures
        r@ == user_prefix() + crate::text::utf8(name@),
{
    proof {
        reveal_strlit("_aether_auth/user/");
    }
    concat(ascii_bytes(USER_KEY_PREFIX).as_slice(), name.as_bytes())
}

/// Encode a role storage key
pub fn role_key(name: &str) -> (r: Vec<u8>)
    ensures
        r@ == role_prefix() + crate::text::utf8(name@),
{
    proof {
        reveal_strlit("_aether_auth/role/");
    }
    concat(ascii_bytes(ROLE_KEY_PREFIX).as_slice(), name.as_bytes())
}

/// User and role keys are reserved, differ for different names, and no user key
/// is a role key.
pub proof fn auth_keys_distinct(a: Seq<char>, b: Seq<char>)
    ensures
        user_prefix() + crate::text::utf8(a) == user_prefix() + crate::text::utf8(b) ==> a == b,
        role_prefix() + crate::text::utf8(a) == role_prefix() + crate::text::utf8(b) ==> a == b,
        user_prefix() + crate::text::utf8(a) != role_prefix() + crate::text::utf8(b),
        crate::names::reserved_prefix().is_prefix_of(user_prefix() + crate::text::utf8(a)),
        crate::names::reserved_prefix().is_prefix_of(role_prefix() + crate::text::utf8(a)),
{
    reveal_strlit("_aether_auth/user/");
    reveal_strlit("_aether_auth/role/");
    reveal_strlit("_aether_");
    let (u, r) = (user_prefix(), role_prefix());
    let (ba, bb) = (crate::text::utf8(a), crate::text::utf8(b));
    vstd::utf8::encode_utf8_decode_utf8(a);
    vstd::utf8::encode_utf8_decode_utf8(b);
    assert((u + ba).skip(u.len() as int) =~= ba);
    assert((u + bb).skip(u.len() as int) =~= bb);
    assert((r + ba).skip(r.len() as int) =~= ba);
    assert((r + bb).skip(r.len() as int) =~= bb);
    assert((u + ba)[13] == 'u' as u8);
    assert((r + bb)[13] == 'r' as u8);
    assert((u + ba).subrange(0, 8) =~= crate::names::reserved_prefix());
    assert((r + ba).subrange(0, 8) =~= crate::names::reserved_prefix());
}

} // verus!
