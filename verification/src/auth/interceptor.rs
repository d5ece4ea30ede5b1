//! Who may do what: tokens, lockout after failed attempts, permission checks.

use vstd::prelude::*;

use super::cache::AuthCache;
use super::role::PermissionType;
use super::token::{Claims, TokenValidator};
use crate::sorted::SortedMap;
use crate::status::Status;
use crate::text::{ends_with, format_u64, join3, same, strip_prefix, text};

verus! {

/// After how many failures a user is locked out.
pub const MAX_FAILURES: u64 = 5;

/// Within how many seconds failures are counted together (5 minutes).
pub const FAILURE_WINDOW_SECS: u64 = 300;

/// For how many seconds a user is locked out (15 minutes).
pub const LOCKOUT_SECS: u64 = 900;

/// Nanoseconds in a second.
pub const NANOS_PER_SEC: u64 = 1_000_000_000;

/// Auth failure record for rate limiting. Times are nanoseconds of a clock that
/// never goes back.
#[derive(Debug, Clone, Copy, PartialEq, Eq, Structural)]
pub struct FailureRecord {
    pub count: u64,
    pub first_failure: u64,
    pub locked_until: Option<u64>,
}

impl View for FailureRecord {
    type V = FailureRecord;

    open spec fn view(&self) -> FailureRecord {
        *self
    }
}

/// Whole seconds from one time to another; none if the other is not later.
pub open spec fn secs_between(from: u64, to: u64) -> int {
    if from < to {
        (to - from) / (NANOS_PER_SEC as int)
    } else {
        0
    }
}

/// A time some seconds later, or the latest time there is.
pub open spec fn later(time: u64, secs: u64) -> u64 {
    if time + secs * NANOS_PER_SEC <= u64::MAX {
        (time + secs * NANOS_PER_SEC) as u64
    } else {
        u64::MAX
    }
}

impl FailureRecord {
    /// A record without failures.
    pub open spec fn fresh(now: u64) -> FailureRecord {
        FailureRecord { count: 0, first_failure: now, locked_until: None }
    }

    /// The record still counts: its lock is not over, or without a lock its first
    /// failure is in the window.
    pub open spec fn counts(self, now: u64) -> bool {
        match self.locked_until {
            Some(until) => until > now,
            None => secs_between(self.first_failure, now) <= FAILURE_WINDOW_SECS,
        }
    }

    /// The record after one more failure.
    pub open spec fn after_failure(self, now: u64) -> FailureRecord {
        let base = if secs_between(self.first_failure, now) > FAILURE_WINDOW_SECS {
            FailureRecord::fresh(now)
        } else {
            self
        };
        let count = if base.count < u64::MAX {
            (base.count + 1) as u64
        } else {
            u64::MAX
        };
        FailureRecord {
            count,
            first_failure: base.first_failure,
            locked_until: if count >= MAX_FAILURES {
                Some(later(now, LOCKOUT_SECS))
            } else {
                base.locked_until
            },
        }
    }
}

/// The records after one more failure of a user; records that count no more are
/// forgotten.
pub open spec fn failures_after(
    failures: Map<Seq<char>, FailureRecord>,
    username: Seq<char>,
    now: u64,
) -> Map<Seq<char>, FailureRecord> {
    let kept = still_counting(failures, now);
    let record = if kept.contains_key(username) {
        kept[username]
    } else {
        FailureRecord::fresh(now)
    };
    kept.insert(username, record.after_failure(now))
}

/// The records that still count.
pub open spec fn still_counting(
    failures: Map<Seq<char>, FailureRecord>,
    now: u64,
) -> Map<Seq<char>, FailureRecord> {
    Map::new(
        |name: Seq<char>| failures.contains_key(name) && failures[name].counts(now),
        |name: Seq<char>| failures[name],
    )
}

/// For how many more whole seconds a user is locked out, if at all.
pub open spec fn locked_for(
    failures: Map<Seq<char>, FailureRecord>,
    username: Seq<char>,
    now: u64,
) -> Option<int> {
    if failures.contains_key(username) && failures[username].locked_until is Some && secs_between(
        now,
        failures[username].locked_until->Some_0,
    ) > 0 {
        Some(secs_between(now, failures[username].locked_until->Some_0))
    } else {
        None
    }
}

/// A role of the user grants access to the key.
pub open spec fn key_granted(
    data: super::cache::AuthData,
    username: Seq<char>,
    key: Seq<u8>,
    required: PermissionType,
) -> bool {
    exists|i: int, j: int| #[trigger] grants_key(data, username, key, required, i, j)
}

/// The `j`-th permission of the `i`-th role of the user covers the key.
pub open spec fn grants_key(
    data: super::cache::AuthData,
    username: Seq<char>,
    key: Seq<u8>,
    required: PermissionType,
    i: int,
    j: int,
) -> bool {
    let roles = data.users[username].roles;
    &&& 0 <= i < roles.len()
    &&& data.roles.contains_key(roles[i])
    &&& 0 <= j < data.roles[roles[i]].permissions.len()
    &&& data.roles[roles[i]].permissions[j].covers_key(key, required)
}

/// A role of the user grants access to the range.
pub open spec fn range_granted(
    data: super::cache::AuthData,
    username: Seq<char>,
    key: Seq<u8>,
    range_end: Seq<u8>,
    required: PermissionType,
) -> bool {
    exists|i: int, j: int| #[trigger]
        grants_range(data, username, key, range_end, required, i, j)
}

/// The `j`-th permission of the `i`-th role of the user covers the range.
pub open spec fn grants_range(
    data: super::cache::AuthData,
    username: Seq<char>,
    key: Seq<u8>,
    range_end: Seq<u8>,
    required: PermissionType,
    i: int,
    j: int,
) -> bool {
    let roles = data.users[username].roles;
    &&& 0 <= i < roles.len()
    &&& data.roles.contains_key(roles[i])
    &&& 0 <= j < data.roles[roles[i]].permissions.len()
    &&& data.roles[roles[i]].permissions[j].covers_range(key, range_end, required)
}

/// With what a user is refused who needs something that is granted or not. The
/// root user is never refused.
pub open spec fn refusal_unless(
    data: super::cache::AuthData,
    username: Seq<char>,
    granted: bool,
) -> Option<crate::status::Refusal> {
    if username == "root"@ {
        None
    } else if !data.users.contains_key(username) {
        Some((crate::status::Code::Unauthenticated, "user not found"@))
    } else if !data.users[username].enabled {
        Some((crate::status::Code::Unauthenticated, "user is disabled"@))
    } else if granted {
        None
    } else {
        Some(
            (
                crate::status::Code::PermissionDenied,
                "permission denied for the requested resource"@,
            ),
        )
    }
}

/// With what a user is refused access to a key.
pub open spec fn key_refusal(
    data: super::cache::AuthData,
    username: Seq<char>,
    key: Seq<u8>,
    required: PermissionType,
) -> Option<crate::status::Refusal> {
    refusal_unless(data, username, key_granted(data, username, key, required))
}

/// With what a user is refused access to a range.
pub open spec fn range_refusal(
    data: super::cache::AuthData,
    username: Seq<char>,
    key: Seq<u8>,
    range_end: Seq<u8>,
    required: PermissionType,
) -> Option<crate::status::Refusal> {
    refusal_unless(data, username, range_granted(data, username, key, range_end, required))
}

/// The path needs no token: it is the one that gives tokens, or the one that
/// turns authentication on for the first time.
pub open spec fn is_public(path: Seq<char>, bootstrapped: bool) -> bool {
    crate::text::has_suffix(path, "/Authenticate"@) || (crate::text::has_suffix(
        path,
        "/AuthEnable"@,
    ) && !bootstrapped)
}

/// The token in an authorization header: what follows `Bearer `, or all of it.
pub open spec fn bearer(header: Seq<char>) -> Seq<char> {
    if crate::text::has_prefix(header, "Bearer "@) {
        header.skip("Bearer "@.len() as int)
    } else {
        header
    }
}

/// What is said to a user who is locked out.
pub open spec fn lockout_message(secs: int) -> Seq<char> {
    "account locked, try again in "@ + crate::text::decimal(secs as nat) + "s"@
}

/// Core auth logic: token validation, rate limiting of failed attempts, and
/// permission checks.
pub struct AuthInterceptor {
    auth_enabled: bool,
    token_validator: TokenValidator,
    auth_cache: AuthCache,
    /// Per-username failure tracking for rate limiting
    failures: SortedMap<String, FailureRecord>,
    /// Whether auth has ever been enabled (prevents unauthenticated re-enable)
    bootstrapped: bool,
}

impl AuthInterceptor {
    /// Whether authentication is on.
    pub closed spec fn enabled(&self) -> bool {
        self.auth_enabled
    }

    /// Whether authentication was ever on.
    pub closed spec fn ever_enabled(&self) -> bool {
        self.bootstrapped
    }

    /// The users and the roles.
    pub closed spec fn data(&self) -> super::cache::AuthData {
        self.auth_cache@
    }

    /// The failures that were recorded.
    pub closed spec fn failed(&self) -> Map<Seq<char>, FailureRecord> {
        self.failures@
    }

    /// What tokens are signed with.
    pub closed spec fn secret(&self) -> Seq<u8> {
        self.token_validator.secret()
    }

    /// For how many hours tokens are valid.
    pub closed spec fn hours(&self) -> u64 {
        self.token_validator.hours()
    }

    /// The tables are in order.
    pub closed spec fn wf(&self) -> bool {
        self.auth_cache.wf() && self.failures.wf()
    }

    /// All but the failures stayed as they were.
    pub open spec fn same_but_failures(&self, other: &AuthInterceptor) -> bool {
        &&& self.enabled() == other.enabled()
        &&& self.ever_enabled() == other.ever_enabled()
        &&& self.data() == other.data()
        &&& self.secret() == other.secret()
        &&& self.hours() == other.hours()
    }

    pub fn new(
        auth_enabled: bool,
        token_validator: TokenValidator,
        auth_cache: AuthCache,
        bootstrapped: bool,
    ) -> (r: Self)
        requires
            auth_cache.wf(),
        ensures
            r.wf(),
            r.enabled() == auth_enabled,
            r.ever_enabled() == bootstrapped,
            r.data() == auth_cache@,
            r.failed() == Map::<Seq<char>, FailureRecord>::empty(),
            r.secret() == token_validator.secret(),
            r.hours() == token_validator.hours(),
    {
        AuthInterceptor {
            auth_enabled,
            token_validator,
            auth_cache,
            failures: SortedMap::new(),
            bootstrapped,
        }
    }

    /// Whether authentication is on.
    pub fn is_enabled(&self) -> (r: bool)
        ensures
            r == self.enabled(),
    {
        self.auth_enabled
    }

    /// Whether authentication was ever on.
    pub fn is_bootstrapped(&self) -> (r: bool)
        ensures
            r == self.ever_enabled(),
    {
        self.bootstrapped
    }

    /// The users and roles.
    pub fn cache(&self) -> (r: &AuthCache)
        requires
            self.wf(),
        ensures
            r.wf(),
            r@ == self.data(),
    {
        &self.auth_cache
    }

    /// What makes and reads tokens.
    pub fn tokens(&self) -> (r: &TokenValidator)
        ensures
            r.secret() == self.secret(),
            r.hours() == self.hours(),
    {
        &self.token_validator
    }

    /// Replaces the users and roles.
    pub fn set_cache(&mut self, auth_cache: AuthCache)
        requires
            old(self).wf(),
            auth_cache.wf(),
        ensures
            final(self).wf(),
            final(self).data() == auth_cache@,
            final(self).enabled() == old(self).enabled(),
            final(self).ever_enabled() == old(self).ever_enabled(),
            final(self).failed() == old(self).failed(),
            final(self).secret() == old(self).secret(),
            final(self).hours() == old(self).hours(),
    {
        self.auth_cache = auth_cache;
    }

    /// Set auth enabled state
    pub fn set_enabled(&mut self, enabled: bool)
        requires
            old(self).wf(),
        ensures
            final(self).wf(),
            final(self).enabled() == enabled,
            final(self).ever_enabled() == old(self).ever_enabled(),
            final(self).data() == old(self).data(),
            final(self).failed() == old(self).failed(),
            final(self).secret() == old(self).secret(),
            final(self).hours() == old(self).hours(),
    {
        self.auth_enabled = enabled;
    }

    /// Records that authentication was on.
    pub fn set_bootstrapped(&mut self, bootstrapped: bool)
        requires
            old(self).wf(),
        ensures
            final(self).wf(),
            final(self).ever_enabled() == bootstrapped,
            final(self).enabled() == old(self).enabled(),
            final(self).data() == old(self).data(),
            final(self).failed() == old(self).failed(),
            final(self).secret() == old(self).secret(),
            final(self).hours() == old(self).hours(),
    {
        self.bootstrapped = bootstrapped;
    }

    fn forget_old_failures(&mut self, now: u64)
        requires
            old(self).wf(),
        ensures
            final(self).wf(),
            final(self).same_but_failures(old(self)),
            final(self).failed() == still_counting(old(self).failed(), now),
    {
        let mut kept: SortedMap<String, FailureRecord> = SortedMap::new();
        let n: usize = self.failures.len();
        let mut i: usize = 0;
        let ghost names = self.failures.keys();
        let ghost all = self.failures@;
        proof {
            self.failures.entries_in_view();
            assert(kept@ =~= part(all, names, 0, now));
        }
        while i < n
            invariant
                i <= n == self.failures.keys().len(),
                self.wf(),
                *self == *old(self),
                names == self.failures.keys(),
                all == self.failures@,
                kept.wf(),
                kept@ == part(all, names, i as int, now),
            decreases n - i,
        {
            proof {
                self.failures.entries_in_view();
            }
            let record: FailureRecord = *self.failures.value_at(i);
            let name = self.failures.key_at(i);
            assert(record == all[names[i as int]]);
            let counting = match record.locked_until {
                Some(until) => until > now,
                None => elapsed_secs(record.first_failure, now) <= FAILURE_WINDOW_SECS,
            };
            assert(counting == record.counts(now));
            if counting {
                kept.insert(text(name.as_str()), record);
            }
            proof {
                let before = part(all, names, i as int, now);
                let after = part(all, names, i + 1, now);
                assert forall|k: Seq<char>| after.contains_key(k) == (before.contains_key(k) || (k
                    == names[i as int] && counting)) by {
                    if before.contains_key(k) {
                        let j = choose|j: int| 0 <= j < i && #[trigger] names[j] == k;
                        assert(names[j] == k);
                    }
                    if after.contains_key(k) && k != names[i as int] {
                        let j = choose|j: int| 0 <= j < i + 1 && #[trigger] names[j] == k;
                        assert(names[j] == k);
                    }
                }
                assert(kept@ =~= after);
            }
            i = i + 1;
        }
        proof {
            self.failures.entries_in_view();
            assert forall|k: Seq<char>| all.contains_key(k) implies exists|j: int|
                0 <= j < n && #[trigger] names[j] == k by {
                let j = names.index_of(k);
                assert(names[j] == k);
            }
            assert(part(all, names, n as int, now) =~= still_counting(all, now));
        }
        self.failures = kept;
    }

    /// Record a failed authentication attempt.
    /// Also cleans up expired entries to prevent unbounded memory growth.
    pub fn record_failure(&mut self, username: &str, now: u64)
        requires
            old(self).wf(),
        ensures
            final(self).wf(),
            final(self).same_but_failures(old(self)),
            final(self).failed() == failures_after(old(self).failed(), username@, now),
    {
        self.forget_old_failures(now);
        let mut record: FailureRecord = match self.failures.get(username) {
            Some(found) => *found,
            None => FailureRecord { count: 0, first_failure: now, locked_until: None },
        };
        // Reset if outside failure window
        if elapsed_secs(record.first_failure, now) > FAILURE_WINDOW_SECS {
            record = FailureRecord { count: 0, first_failure: now, locked_until: None };
        }
        record.count = record.count.saturating_add(1);
        if record.count >= MAX_FAILURES {
            record.locked_until = Some(now.saturating_add(LOCKOUT_SECS * NANOS_PER_SEC));
        }
        self.failures.insert(text(username), record);
    }

    /// Clear failure record on successful authentication
    pub fn clear_failures(&mut self, username: &str)
        requires
            old(self).wf(),
        ensures
            final(self).wf(),
            final(self).same_but_failures(old(self)),
            final(self).failed() == old(self).failed().remove(username@),
    {
        self.failures.remove(username);
    }

    /// Check if a username is currently locked out.
    /// Returns `Some(remaining_secs)` if locked, `None` otherwise.
    pub fn is_locked_out(&self, username: &str, now: u64) -> (r: Option<u64>)
        requires
            self.wf(),
        ensures
            match r {
                Some(secs) => locked_for(self.failed(), username@, now) == Some(secs as int),
                None => locked_for(self.failed(), username@, now) is None,
            },
    {
        if let Some(record) = self.failures.get(username) {
            if let Some(until) = record.locked_until {
                let remaining: u64 = elapsed_secs(now, until);
                if remaining > 0 {
                    return Some(remaining);
                }
            }
        }
        None
    }

    /// Check permission for a single key.
    pub fn check_permission(
        &self,
        username: &str,
        key: &[u8],
        required: PermissionType,
    ) -> (r: Result<(), Status>)
        requires
            self.wf(),
        ensures
            crate::status::answers(r, key_refusal(self.data(), username@, key@, required)),
    {
        let ghost data = self.data();
        // Root user bypasses permission check
        if same(username, "root") {
            return Ok(());
        }
        let user = match self.auth_cache.find_user(username) {
            Some(user) => user,
            None => {
                return Err(Status::unauthenticated("user not found"));
            },
        };
        if !user.enabled {
            return Err(Status::unauthenticated("user is disabled"));
        }
        let mut i: usize = 0;
        while i < user.roles.len()
            invariant
                i <= user.roles.len(),
                self.wf(),
                data == self.data(),
                data.users.contains_key(username@),
                user@ == data.users[username@],
                username@ != "root"@,
                user.enabled,
                forall|a: int, b: int| #[trigger]
                    grants_key(data, username@, key@, required, a, b) ==> a >= i,
            decreases user.roles.len() - i,
        {
            assert(user@.roles[i as int] == user.roles@[i as int]@);
            if let Some(role) = self.auth_cache.find_role(user.roles[i].as_str()) {
                let mut j: usize = 0;
                while j < role.permissions.len()
                    invariant
                        i < user.roles.len(),
                        j <= role.permissions.len(),
                        data == self.data(),
                        data.users.contains_key(username@),
                        user@ == data.users[username@],
                        user@.roles[i as int] == user.roles@[i as int]@,
                        data.roles.contains_key(user@.roles[i as int]),
                        role@ == data.roles[user@.roles[i as int]],
                        username@ != "root"@,
                        user.enabled,
                        forall|a: int, b: int| #[trigger]
                            grants_key(data, username@, key@, required, a, b) ==> a > i || (a == i
                                && b >= j),
                    decreases role.permissions.len() - j,
                {
                    assert(role@.permissions[j as int] == role.permissions@[j as int]@);
                    if role.permissions[j].covers_key(key, required) {
                        assert(grants_key(data, username@, key@, required, i as int, j as int));
                        return Ok(());
                    }
                    j = j + 1;
                }
            }
            i = i + 1;
        }
        Err(Status::permission_denied("permission denied for the requested resource"))
    }

    /// Check permission for a key range.
    pub fn check_range_permission(
        &self,
        username: &str,
        key: &[u8],
        range_end: &[u8],
        required: PermissionType,
    ) -> (r: Result<(), Status>)
        requires
            self.wf(),
        ensures
            crate::status::answers(
                r,
                range_refusal(self.data(), username@, key@, range_end@, required),
            ),
    {
        let ghost data = self.data();
        if same(username, "root") {
            return Ok(());
        }
        let user = match self.auth_cache.find_user(username) {
            Some(user) => user,
            None => {
                return Err(Status::unauthenticated("user not found"));
            },
        };
        if !user.enabled {
            return Err(Status::unauthenticated("user is disabled"));
        }
        let mut i: usize = 0;
        while i < user.roles.len()
            invariant
                i <= user.roles.len(),
                self.wf(),
                data == self.data(),
                data.users.contains_key(username@),
                user@ == data.users[username@],
                username@ != "root"@,
                user.enabled,
                forall|a: int, b: int| #[trigger]
                    grants_range(data, username@, key@, range_end@, required, a, b) ==> a >= i,
            decreases user.roles.len() - i,
        {
            assert(user@.roles[i as int] == user.roles@[i as int]@);
            if let Some(role) = self.auth_cache.find_role(user.roles[i].as_str()) {
                let mut j: usize = 0;
                while j < role.permissions.len()
                    invariant
                        i < user.roles.len(),
                        j <= role.permissions.len(),
                        data == self.data(),
                        data.users.contains_key(username@),
                        user@ == data.users[username@],
                        user@.roles[i as int] == user.roles@[i as int]@,
                        data.roles.contains_key(user@.roles[i as int]),
                        role@ == data.roles[user@.roles[i as int]],
                        username@ != "root"@,
                        user.enabled,
                        forall|a: int, b: int| #[trigger]
                            grants_range(data, username@, key@, range_end@, required, a, b) ==> a
                                > i || (a == i && b >= j),
                    decreases role.permissions.len() - j,
                {
                    assert(role@.permissions[j as int] == role.permissions@[j as int]@);
                    if role.permissions[j].covers_range(key, range_end, required) {
                        assert(grants_range(
                            data,
                            username@,
                            key@,
                            range_end@,
                            required,
                            i as int,
                            j as int,
                        ));
                        return Ok(());
                    }
                    j = j + 1;
                }
            }
            i = i + 1;
        }
        Err(Status::permission_denied("permission denied for the requested resource"))
    }

    /// The user that a token names, given what reading the token gave: a user who
    /// is locked out is refused.
    pub fn accept_claims(&self, claims: Result<Claims, String>, now: u64) -> (r: Result<String, Status>)
        requires
            self.wf(),
        ensures
            match claims {
                Ok(c) => match locked_for(self.failed(), c.sub@, now) {
                    Some(secs) => r is Err && r->Err_0.says(
                        (crate::status::Code::ResourceExhausted, lockout_message(secs)),
                    ),
                    None => r == Ok::<String, Status>(c.sub),
                },
                Err(_) => r is Err && r->Err_0.says(
                    (crate::status::Code::Unauthenticated, "invalid or expired token"@),
                ),
            },
    {
        match claims {
            Ok(c) => match self.is_locked_out(c.sub.as_str(), now) {
                Some(remaining) => Err(
                    Status::resource_exhausted(
                        join3(
                            "account locked, try again in ",
                            format_u64(remaining).as_str(),
                            "s",
                        ).as_str(),
                    ),
                ),
                None => Ok(c.sub),
            },
            Err(_) => Err(Status::unauthenticated("invalid or expired token")),
        }
    }

    /// Validate the token of a request and return the username.
    /// Returns an empty name when auth is disabled or the request targets a public
    /// endpoint.
    pub fn authenticate(&self, path: &str, authorization: Option<&str>, now: u64) -> (r: Result<
        String,
        Status,
    >)
        requires
            self.wf(),
        ensures
            !self.enabled() || is_public(path@, self.ever_enabled()) ==> r is Ok && r->Ok_0@
                == Seq::<char>::empty(),
            self.enabled() && !is_public(path@, self.ever_enabled()) && authorization is None
                ==> r is Err && r->Err_0.says(
                (crate::status::Code::Unauthenticated, "missing authorization token"@),
            ),
            self.enabled() && !is_public(path@, self.ever_enabled()) && authorization is Some
                ==> match r {
                Ok(name) => {
                    let claims = super::token::jwt_claims(
                        self.secret(),
                        bearer(authorization->Some_0@),
                    );
                    &&& claims is Some
                    &&& claims->Some_0.sub == name@
                    &&& locked_for(self.failed(), name@, now) is None
                },
                Err(status) => status.says(
                    (crate::status::Code::Unauthenticated, "invalid or expired token"@),
                ) || match super::token::jwt_claims(
                    self.secret(),
                    bearer(authorization->Some_0@),
                ) {
                    Some(claims) => refused_as_locked(self.failed(), claims.sub, now, status),
                    None => false,
                },
            },
    {
        // If auth is disabled, allow all requests
        if !self.auth_enabled {
            return Ok(String::new());
        }
        if ends_with(path, "/Authenticate") {
            return Ok(String::new());
        }
        if ends_with(path, "/AuthEnable") && !self.bootstrapped {
            return Ok(String::new());
        }
        match authorization {
            None => Err(Status::unauthenticated("missing authorization token")),
            Some(raw_token) => {
                // Strip "Bearer " prefix if present
                let token = match strip_prefix(raw_token, "Bearer ") {
                    Some(rest) => rest,
                    None => raw_token,
                };
                let claims = self.token_validator.validate_token(token);
                self.accept_claims(claims, now)
            },
        }
    }
}

/// The status says that the user is locked out.
pub open spec fn refused_as_locked(
    failures: Map<Seq<char>, FailureRecord>,
    name: Seq<char>,
    now: u64,
    status: Status,
) -> bool {
    &&& locked_for(failures, name, now) is Some
    &&& status.says(
        (
            crate::status::Code::ResourceExhausted,
            lockout_message(locked_for(failures, name, now)->Some_0),
        ),
    )
}

spec fn part(
    all: Map<Seq<char>, FailureRecord>,
    names: Seq<Seq<char>>,
    n: int,
    now: u64,
) -> Map<Seq<char>, FailureRecord> {
    Map::new(
        |k: Seq<char>|
            all.contains_key(k) && all[k].counts(now) && exists|j: int|
                0 <= j < n && #[trigger] names[j] == k,
        |k: Seq<char>| all[k],
    )
}

/// Whole seconds from one time to another; none if the other is not later.
fn elapsed_secs(from: u64, to: u64) -> (r: u64)
    ensures
        r == secs_between(from, to),
{
    if from < to {
        (to - from) / NANOS_PER_SEC
    } else {
        0
    }
}

/// Access to a range that is granted is granted for every key in the range.
pub proof fn range_access_covers_keys(
    data: super::cache::AuthData,
    username: Seq<char>,
    key: Seq<u8>,
    range_end: Seq<u8>,
    required: PermissionType,
    k: Seq<u8>,
)
    requires
        range_refusal(data, username, key, range_end, required) is None,
        super::role::in_range(key, range_end, k),
    ensures
        key_refusal(data, username, k, required) is None,
{
    if username != "root"@ {
        let (i, j) = choose|i: int, j: int| #[trigger]
            grants_range(data, username, key, range_end, required, i, j);
        let roles = data.users[username].roles;
        let grant = data.roles[roles[i]].permissions[j];
        grant.range_covers_keys(key, range_end, required, k);
        assert(grants_key(data, username, k, required, i, j));
    }
}

/// A user without a record who fails five times in a row, all within the failure
/// window of the first, is not locked out by the first four failures and is by
/// the fifth, for the lockout time.
pub proof fn five_failures_lock_out(
    failures: Map<Seq<char>, FailureRecord>,
    username: Seq<char>,
    times: Seq<u64>,
    later_time: u64,
)
    requires
        times.len() == MAX_FAILURES,
        forall|i: int, j: int| 0 <= i <= j < times.len() ==> times[i] <= times[j],
        !still_counting(failures, times[0]).contains_key(username),
        secs_between(times[0], times[4]) <= FAILURE_WINDOW_SECS,
        times[4] + LOCKOUT_SECS * NANOS_PER_SEC <= u64::MAX,
        times[4] <= later_time,
    ensures
        ({
            let f1 = failures_after(failures, username, times[0]);
            let f2 = failures_after(f1, username, times[1]);
            let f3 = failures_after(f2, username, times[2]);
            let f4 = failures_after(f3, username, times[3]);
            let f5 = failures_after(f4, username, times[4]);
            &&& locked_for(f4, username, times[3]) is None
            &&& locked_for(f5, username, later_time) is Some <==> later_time + NANOS_PER_SEC
                <= times[4] + LOCKOUT_SECS * NANOS_PER_SEC
            &&& locked_for(f5.remove(username), username, later_time) is None
        }),
{
    let f1 = failures_after(failures, username, times[0]);
    let f2 = failures_after(f1, username, times[1]);
    let f3 = failures_after(f2, username, times[2]);
    let f4 = failures_after(f3, username, times[3]);
    let f5 = failures_after(f4, username, times[4]);
    assert(f1[username] == (FailureRecord {
        count: 1,
        first_failure: times[0],
        locked_until: None,
    }));
    assert(times[0] <= times[1] <= times[2] <= times[3] <= times[4]);
    assert(f2[username].count == 2);
    assert(f3[username].count == 3);
    assert(f4[username].count == 4);
    assert(f4[username].locked_until is None);
    assert(f5[username].count == 5);
    assert(f5[username].locked_until == Some(later(times[4], LOCKOUT_SECS)));
}

/// A user other than root is refused every key that none of the user's roles
/// grants.
pub proof fn no_grant_no_access(
    data: super::cache::AuthData,
    username: Seq<char>,
    key: Seq<u8>,
    required: PermissionType,
)
    requires
        username != "root"@,
        !key_granted(data, username, key, required),
    ensures
        key_refusal(data, username, key, required) is Some,
{
}

/// A user may do something to a key: the root user may, and so may an enabled user one
/// of whose roles has a permission that covers the key.
pub open spec fn may(
    data: super::cache::AuthData,
    user: Seq<char>,
    key: Seq<u8>,
    required: PermissionType,
) -> bool {
    user == "root"@ || (data.users.contains_key(user) && data.users[user].enabled && exists|
        role: Seq<char>,
        p: super::role::Grant,
    |
        data.users[user].roles.contains(role) && data.roles.contains_key(role)
            && #[trigger] data.roles[role].permissions.contains(p) && p.covers_key(key, required))
}

/// A user may do something to a range: the root user may, and so may an enabled user
/// one of whose roles has a permission that covers the range.
pub open spec fn may_all(
    data: super::cache::AuthData,
    user: Seq<char>,
    key: Seq<u8>,
    range_end: Seq<u8>,
    required: PermissionType,
) -> bool {
    user == "root"@ || (data.users.contains_key(user) && data.users[user].enabled && exists|
        role: Seq<char>,
        p: super::role::Grant,
    |
        data.users[user].roles.contains(role) && data.roles.contains_key(role)
            && #[trigger] data.roles[role].permissions.contains(p) && p.covers_range(
            key,
            range_end,
            required,
        ))
}

/// A user is refused a key or a range exactly when the user may not have it. Somebody
/// who is not known or not enabled is not authenticated, and somebody else is denied.
pub proof fn access_needs_a_grant(
    data: super::cache::AuthData,
    user: Seq<char>,
    key: Seq<u8>,
    range_end: Seq<u8>,
    required: PermissionType,
)
    ensures
        key_refusal(data, user, key, required) is None <==> may(data, user, key, required),
        range_refusal(data, user, key, range_end, required) is None <==> may_all(
            data,
            user,
            key,
            range_end,
            required,
        ),
        key_refusal(data, user, key, required) matches Some(said) ==> said.0 == if data.users.contains_key(
            user,
        ) && data.users[user].enabled {
            crate::status::Code::PermissionDenied
        } else {
            crate::status::Code::Unauthenticated
        },
        range_refusal(data, user, key, range_end, required) matches Some(said) ==> said.0
            == if data.users.contains_key(user) && data.users[user].enabled {
            crate::status::Code::PermissionDenied
        } else {
            crate::status::Code::Unauthenticated
        },
{
    if data.users.contains_key(user) {
        let roles = data.users[user].roles;
        if key_granted(data, user, key, required) {
            let (i, j) = choose|i: int, j: int| #[trigger]
                grants_key(data, user, key, required, i, j);
            let p = data.roles[roles[i]].permissions[j];
            assert(roles.contains(roles[i]));
            assert(data.roles[roles[i]].permissions.contains(p));
        }
        if range_granted(data, user, key, range_end, required) {
            let (i, j) = choose|i: int, j: int| #[trigger]
                grants_range(data, user, key, range_end, required, i, j);
            let p = data.roles[roles[i]].permissions[j];
            assert(roles.contains(roles[i]));
            assert(data.roles[roles[i]].permissions.contains(p));
        }
        assert forall|role: Seq<char>, p: super::role::Grant|
            roles.contains(role) && data.roles.contains_key(role)
                && #[trigger] data.roles[role].permissions.contains(p) implies (p.covers_key(
            key,
            required,
        ) ==> key_granted(data, user, key, required)) && (p.covers_range(
            key,
            range_end,
            required,
        ) ==> range_granted(data, user, key, range_end, required)) by {
            let i = roles.index_of(role);
            let j = data.roles[role].permissions.index_of(p);
            if p.covers_key(key, required) {
                assert(grants_key(data, user, key, required, i, j));
            }
            if p.covers_range(key, range_end, required) {
                assert(grants_range(data, user, key, range_end, required, i, j));
            }
        }
    }
}

/// The seconds between two times are whole: they fit between the times, and one
/// more would not. There are none back in time.
pub proof fn seconds_between_are_whole(from: u64, to: u64)
    ensures
        secs_between(from, to) >= 0,
        from <= to ==> from + 1_000_000_000 * secs_between(from, to) <= to,
        to < from + 1_000_000_000 * (secs_between(from, to) + 1),
        to <= from ==> secs_between(from, to) == 0,
{
}

/// A later time is so many seconds later, unless there is no such time: then it is
/// the last there is.
pub proof fn later_is_later(time: u64, secs: u64)
    ensures
        later(time, secs) >= time,
        time + secs * 1_000_000_000 <= u64::MAX ==> later(time, secs) == time + secs
            * 1_000_000_000,
        time + secs * 1_000_000_000 > u64::MAX ==> later(time, secs) == u64::MAX,
{
}

/// Failures are remembered for five minutes from the first of them, and as long as
/// they lock out; a record that is remembered stays as it is.
pub proof fn failures_are_remembered(
    failures: Map<Seq<char>, FailureRecord>,
    name: Seq<char>,
    now: u64,
)
    ensures
        still_counting(failures, now).contains_key(name) <==> {
            &&& failures.contains_key(name)
            &&& match failures[name].locked_until {
                Some(until) => now < until,
                None => now < failures[name].first_failure + 301 * 1_000_000_000,
            }
        },
        still_counting(failures, now).contains_key(name) ==> still_counting(failures, now)[name]
            == failures[name],
{
    seconds_between_are_whole(failures[name].first_failure, now);
}

/// A failure counts one more within five minutes of the first one, and is a new
/// first one otherwise. From the fifth on it locks out for a quarter of an hour.
/// What is known of others is only ever forgotten.
pub proof fn failures_add_up(
    failures: Map<Seq<char>, FailureRecord>,
    name: Seq<char>,
    other: Seq<char>,
    now: u64,
)
    ensures
        ({
            let after = failures_after(failures, name, now);
            let before = failures[name];
            let goes_on = failures.contains_key(name) && now < before.first_failure + 301
                * 1_000_000_000 && (before.locked_until matches Some(until) ==> now < until);
            &&& after.contains_key(name)
            &&& goes_on ==> {
                &&& after[name].first_failure == before.first_failure
                &&& before.count < u64::MAX ==> after[name].count == before.count + 1
                &&& before.count < 4 ==> after[name].locked_until == before.locked_until
            }
            &&& !goes_on ==> after[name] == (FailureRecord {
                count: 1,
                first_failure: now,
                locked_until: None,
            })
            &&& after[name].count >= 5 ==> after[name].locked_until is Some
            &&& after[name].count >= 5 && now + 900 * 1_000_000_000 <= u64::MAX
                ==> after[name].locked_until == Some((now + 900 * 1_000_000_000) as u64)
            &&& other != name ==> {
                &&& after.contains_key(other) ==> failures.contains_key(other) && after[other]
                    == failures[other]
                &&& failures.contains_key(other) && match failures[other].locked_until {
                    Some(until) => now < until,
                    None => now < failures[other].first_failure + 301 * 1_000_000_000,
                } ==> after.contains_key(other)
            }
        }),
{
    failures_are_remembered(failures, name, now);
    failures_are_remembered(failures, other, now);
    seconds_between_are_whole(failures[name].first_failure, now);
    later_is_later(now, 900);
    assert(secs_between(now, now) == 0);
}

/// A user is locked out if and only if a whole second or more of a lockout is
/// ahead, and is told how many of them are.
pub proof fn lockouts_run_out(
    failures: Map<Seq<char>, FailureRecord>,
    name: Seq<char>,
    now: u64,
)
    ensures
        locked_for(failures, name, now) is Some <==> {
            &&& failures.contains_key(name)
            &&& failures[name].locked_until matches Some(until)
            &&& now + 1_000_000_000 <= until
        },
        locked_for(failures, name, now) matches Some(secs) ==> {
            let until = failures[name].locked_until->Some_0;
            &&& secs >= 1
            &&& now + secs * 1_000_000_000 <= until
            &&& until < now + (secs + 1) * 1_000_000_000
        },
{
    if failures[name].locked_until is Some {
        seconds_between_are_whole(now, failures[name].locked_until->Some_0);
    }
}

/// A path is open to everybody if and only if it ends as the one to authenticate
/// does, or, as long as authentication was never on, as the one to turn it on.
pub proof fn open_paths(path: Seq<char>, bootstrapped: bool)
    ensures
        is_public(path, bootstrapped) <==> {
            ||| exists|service: Seq<char>| path == #[trigger] (service + "/Authenticate"@)
            ||| !bootstrapped && exists|service: Seq<char>|
                path == #[trigger] (service + "/AuthEnable"@)
        },
{
    let (a, b) = ("/Authenticate"@, "/AuthEnable"@);
    if crate::text::has_suffix(path, a) {
        assert(path =~= path.take(path.len() - a.len()) + a) by {
            assert(path.skip(path.len() - a.len()) == a);
            assert(path =~= path.take(path.len() - a.len()) + path.skip(path.len() - a.len()));
        }
    }
    if crate::text::has_suffix(path, b) {
        assert(path =~= path.take(path.len() - b.len()) + b) by {
            assert(path.skip(path.len() - b.len()) == b);
            assert(path =~= path.take(path.len() - b.len()) + path.skip(path.len() - b.len()));
        }
    }
    assert forall|service: Seq<char>| path == #[trigger] (service + a) implies crate::text::has_suffix(
        path,
        a,
    ) by {
        assert(path.skip(path.len() - a.len()) =~= a);
    }
    assert forall|service: Seq<char>| path == #[trigger] (service + b) implies crate::text::has_suffix(
        path,
        b,
    ) by {
        assert(path.skip(path.len() - b.len()) =~= b);
    }
}

/// The token in a header is what follows the word for it, and the whole header
/// without that word.
pub proof fn tokens_follow_the_word(header: Seq<char>, token: Seq<char>)
    ensures
        bearer("Bearer "@ + token) == token,
        (forall|t: Seq<char>| header != #[trigger] ("Bearer "@ + t)) ==> bearer(header) == header,
{
    let word = "Bearer "@;
    assert((word + token).take(word.len() as int) =~= word);
    assert((word + token).skip(word.len() as int) =~= token);
    if crate::text::has_prefix(header, word) {
        assert(header =~= word + header.skip(word.len() as int)) by {
            assert(header.take(word.len() as int) == word);
            assert(header =~= header.take(word.len() as int) + header.skip(word.len() as int));
        }
    }
}

/// Who is locked out is told for how many seconds.
pub proof fn lockouts_are_told(
    failures: Map<Seq<char>, FailureRecord>,
    name: Seq<char>,
    now: u64,
    status: Status,
    secs: int,
)
    ensures
        lockout_message(secs) == "account locked, try again in "@ + crate::text::decimal(
            secs as nat,
        ) + "s"@,
        refused_as_locked(failures, name, now, status) ==> {
            &&& locked_for(failures, name, now) is Some
            &&& status.code is ResourceExhausted
            &&& status.message@ == lockout_message(locked_for(failures, name, now)->Some_0)
        },
{
}

/// Counting failures changes nothing else: neither whether authentication is on or
/// was ever, nor users, roles, or how tokens are signed and how long they live.
pub proof fn failures_change_nothing_else(before: &AuthInterceptor, after: &AuthInterceptor)
    requires
        after.same_but_failures(before),
    ensures
        after.enabled() == before.enabled(),
        after.ever_enabled() == before.ever_enabled(),
        after.data() == before.data(),
        after.secret() == before.secret(),
        after.hours() == before.hours(),
{
}

} // verus!
