//! Users and their passwords.

use vstd::prelude::*;

use crate::text::{copy_texts, join2, text};

verus! {

/// User stored in the auth system
#[derive(Debug, Clone)]
pub struct User {
    pub name: String,
    pub password_hash: String,
    pub roles: Vec<String>,
    pub enabled: bool,
}

/// What a user record holds.
pub struct UserData {
    pub name: Seq<char>,
    pub password_hash: Seq<char>,
    pub roles: Seq<Seq<char>>,
    pub enabled: bool,
}

impl View for User {
    type V = UserData;

    open spec fn view(&self) -> UserData {
        UserData {
            name: self.name@,
            password_hash: self.password_hash@,
            roles: crate::text::texts(self.roles@),
            enabled: self.enabled,
        }
    }
}

/// What hashing a password with a salt gives: the hash in PHC string format, or
/// the message of the error.
pub uninterp spec fn argon2_hashed(password: Seq<u8>, salt: Seq<char>) -> Result<
    Seq<char>,
    Seq<char>,
>;

/// Whether a hash in PHC string format is the hash of a password.
pub uninterp spec fn argon2_accepts(hash: Seq<char>, password: Seq<u8>) -> bool;

/// `SaltString::generate` of the crate `password-hash`, on the random number
/// generator of the operating system. It gives a random salt; nothing is claimed
/// of it.
#[verifier::external_body]
fn random_salt() -> String {
    argon2::password_hash::SaltString::generate(&mut argon2::password_hash::rand_core::OsRng)
        .as_str()
        .to_owned()
}

/// `Argon2::hash_password` with the default parameters. The result is determined
/// by the password and the salt, and a hash that it gives is one that
/// `verify_password` accepts for the same password.
#[verifier::external_body]
fn hash_with_salt(password: &[u8], salt: &str) -> (r: Result<String, String>)
    ensures
        match r {
            Ok(hash) => argon2_hashed(password@, salt@) == Ok::<Seq<char>, Seq<char>>(hash@)
                && argon2_accepts(hash@, password@),
            Err(message) => argon2_hashed(password@, salt@) == Err::<Seq<char>, Seq<char>>(
                message@,
            ),
        },
{
    argon2::password_hash::Salt::from_b64(salt)
        .and_then(|salt| argon2::PasswordHasher::hash_password(&argon2::Argon2::default(), password, salt))
        .map(|hash| hash.to_string())
        .map_err(|e| e.to_string())
}

/// `Argon2::verify_password` on a hash in PHC string format. Whether it succeeds
/// is determined by the hash and the password; a text that is no such hash is
/// not accepted.
#[verifier::external_body]
fn verify_with_hash(hash: &str, password: &[u8]) -> (r: Result<(), String>)
    ensures
        r is Ok == argon2_accepts(hash@, password@),
{
    argon2::PasswordHash::new(hash)
        .and_then(|hash| argon2::PasswordVerifier::verify_password(&argon2::Argon2::default(), password, &hash))
        .map_err(|e| e.to_string())
}

/// The answer for a password that was hashed with a salt.
pub open spec fn hash_answer(password: Seq<u8>, salt: Seq<char>, r: Result<String, String>) -> bool {
    match argon2_hashed(password, salt) {
        Ok(hash) => r is Ok && r->Ok_0@ == hash,
        Err(message) => r is Err && r->Err_0@ == "password hash failed: "@ + message,
    }
}

/// The answer for a password that was hashed with whatever salt.
pub open spec fn hashed(password: Seq<u8>, r: Result<String, String>) -> bool {
    exists|salt: Seq<char>| hash_answer(password, salt, r)
}

impl User {
    /// An enabled user without roles.
    pub fn new(name: String, password_hash: String) -> (r: Self)
        ensures
            r.name == name,
            r.password_hash == password_hash,
            r.roles@ == Seq::<String>::empty(),
            r.enabled,
    {
        User { name, password_hash, roles: Vec::new(), enabled: true }
    }

    /// A copy of the user.
    pub fn copy(&self) -> (r: Self)
        ensures
            r@ == self@,
    {
        User {
            name: text(self.name.as_str()),
            password_hash: text(self.password_hash.as_str()),
            roles: copy_texts(&self.roles),
            enabled: self.enabled,
        }
    }

    /// Hash a password using argon2id with the given salt
    pub fn hash_password_with(password: &[u8], salt: &str) -> (r: Result<String, String>)
        ensures
            hash_answer(password@, salt@, r),
            r is Ok ==> argon2_accepts(r->Ok_0@, password@),
    {
        match hash_with_salt(password, salt) {
            Ok(hash) => Ok(hash),
            Err(message) => Err(join2("password hash failed: ", message.as_str())),
        }
    }

    /// Hash a password using argon2id with a random salt
    pub fn hash_password(password: &[u8]) -> (r: Result<String, String>)
        ensures
            hashed(password@, r),
            r is Ok ==> argon2_accepts(r->Ok_0@, password@),
    {
        let salt = random_salt();
        let r = User::hash_password_with(password, salt.as_str());
        assert(hash_answer(password@, salt@, r));
        r
    }

    /// Verify a password against the stored hash
    pub fn verify_password(&self, password: &[u8]) -> (r: bool)
        ensures
            r == argon2_accepts(self@.password_hash, password@),
    {
        verify_with_hash(self.password_hash.as_str(), password).is_ok()
    }
}

/// A password is hashed or it is said why not.
pub proof fn hashing_succeeds_or_tells_why(
    password: Seq<u8>,
    salt: Seq<char>,
    r: Result<String, String>,
)
    requires
        hash_answer(password, salt, r),
    ensures
        r is Ok <==> argon2_hashed(password, salt) is Ok,
        r is Ok ==> r->Ok_0@ == argon2_hashed(password, salt)->Ok_0,
        r is Err ==> r->Err_0@ == "password hash failed: "@ + argon2_hashed(
            password,
            salt,
        )->Err_0,
{
}

/// A user is seen with their own name, hash, roles and state.
pub proof fn users_are_seen_as_they_are(user: User)
    ensures
        user@.name == user.name@,
        user@.password_hash == user.password_hash@,
        user@.roles == crate::text::texts(user.roles@),
        user@.enabled == user.enabled,
{
}

} // verus!
