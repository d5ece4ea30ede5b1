//! In-memory cache of users and roles.

use vstd::prelude::*;

use super::role::{Permission, Role};
use super::user::User;
use crate::bytes::copy_bytes;
use crate::sorted::SortedMap;
use crate::text::{contains_text, text};

verus! {

/// What an auth cache holds: users and roles by name.
#[verifier::ext_equal]
pub struct AuthData {
    pub users: Map<Seq<char>, super::user::UserData>,
    pub roles: Map<Seq<char>, super::role::RoleData>,
}

impl AuthData {
    /// Every user and every role stands under its own name.
    pub open spec fn named(self) -> bool {
        &&& forall|name: Seq<char>| #[trigger]
            self.users.contains_key(name) ==> self.users[name].name == name
        &&& forall|name: Seq<char>| #[trigger]
            self.roles.contains_key(name) ==> self.roles[name].name == name
    }

    proof fn user_kept_named(self, user: super::user::UserData)
        requires
            self.named(),
        ensures
            (AuthData { users: self.users.insert(user.name, user), ..self }).named(),
    {
    }

    proof fn role_kept_named(self, role: super::role::RoleData)
        requires
            self.named(),
        ensures
            (AuthData { roles: self.roles.insert(role.name, role), ..self }).named(),
    {
    }
}

/// What a list of users holds.
pub open spec fn user_views(list: Seq<User>) -> Seq<super::user::UserData> {
    list.map_values(|u: User| u@)
}

/// What a list of roles holds.
pub open spec fn role_views(list: Seq<Role>) -> Seq<super::role::RoleData> {
    list.map_values(|r: Role| r@)
}

/// The users after putting in those of a list, each under its name, in order.
pub open spec fn with_users(
    users: Map<Seq<char>, super::user::UserData>,
    list: Seq<super::user::UserData>,
) -> Map<Seq<char>, super::user::UserData>
    decreases list.len(),
{
    if list.len() == 0 {
        users
    } else {
        with_users(users, list.drop_last()).insert(list.last().name, list.last())
    }
}

/// The roles after putting in those of a list, each under its name, in order.
pub open spec fn with_roles(
    roles: Map<Seq<char>, super::role::RoleData>,
    list: Seq<super::role::RoleData>,
) -> Map<Seq<char>, super::role::RoleData>
    decreases list.len(),
{
    if list.len() == 0 {
        roles
    } else {
        with_roles(roles, list.drop_last()).insert(list.last().name, list.last())
    }
}

/// `names` are the names in a map, in order, and `list` holds what the map has
/// under each.
pub open spec fn lists_under<D>(
    map: Map<Seq<char>, D>,
    names: Seq<Seq<char>>,
    list: Seq<D>,
) -> bool {
    &&& names.to_set() == map.dom()
    &&& forall|i: int, j: int|
        0 <= i < j < names.len() ==> <String as crate::sorted::OrdKey>::precedes(
            #[trigger] names[i],
            #[trigger] names[j],
        )
    &&& list == names.map_values(|name: Seq<char>| map[name])
}

/// `list` holds what a map has under its names, in the order of the names.
pub open spec fn lists<D>(map: Map<Seq<char>, D>, list: Seq<D>) -> bool {
    exists|names: Seq<Seq<char>>| lists_under(map, names, list)
}

/// Of a list of all users, each is the one that is found by its name.
pub proof fn listed_users_are_found(
    data: AuthData,
    list: Seq<super::user::UserData>,
    i: int,
)
    requires
        data.named(),
        lists(data.users, list),
        0 <= i < list.len(),
    ensures
        data.users.contains_key(list[i].name),
        data.users[list[i].name] == list[i],
{
    let names = choose|names: Seq<Seq<char>>| lists_under(data.users, names, list);
    assert(names.to_set().contains(names[i]));
}

/// Of a list of all roles, each is the one that is found by its name.
pub proof fn listed_roles_are_found(
    data: AuthData,
    list: Seq<super::role::RoleData>,
    i: int,
)
    requires
        data.named(),
        lists(data.roles, list),
        0 <= i < list.len(),
    ensures
        data.roles.contains_key(list[i].name),
        data.roles[list[i].name] == list[i],
{
    let names = choose|names: Seq<Seq<char>>| lists_under(data.roles, names, list);
    assert(names.to_set().contains(names[i]));
}

impl Permission {
    /// A copy of the permission.
    pub fn copy(&self) -> (r: Self)
        ensures
            r@ == self@,
    {
        Permission {
            perm_type: self.perm_type,
            key: copy_bytes(self.key.as_slice()),
            range_end: copy_bytes(self.range_end.as_slice()),
        }
    }
}

impl Role {
    /// A copy of the role.
    pub fn copy(&self) -> (r: Self)
        ensures
            r@ == self@,
    {
        let mut permissions: Vec<Permission> = Vec::new();
        let mut i: usize = 0;
        while i < self.permissions.len()
            invariant
                i <= self.permissions.len(),
                permissions@.len() == i,
                forall|j: int| 0 <= j < i ==> (#[trigger] permissions@[j])@ == self.permissions@[j]@,
            decreases self.permissions.len() - i,
        {
            permissions.push(self.permissions[i].copy());
            i = i + 1;
        }
        let r = Role { name: text(self.name.as_str()), permissions };
        assert(r@.permissions =~= self@.permissions);
        r
    }
}

/// In-memory cache for auth data (users and roles).
pub struct AuthCache {
    users: SortedMap<String, User>,
    roles: SortedMap<String, Role>,
}

impl View for AuthCache {
    type V = AuthData;

    closed spec fn view(&self) -> AuthData {
        AuthData { users: self.users@, roles: self.roles@ }
    }
}

impl AuthCache {
    /// The users and the roles are in order of their names, and each stands under
    /// its own.
    pub closed spec fn wf(&self) -> bool {
        self.users.wf() && self.roles.wf() && self@.named()
    }

    /// In a well-formed cache every user and every role stands under its own name.
    pub proof fn entries_named(&self)
        requires
            self.wf(),
        ensures
            self@.named(),
    {
    }

    /// An empty cache.
    pub fn new() -> (r: Self)
        ensures
            r.wf(),
            r@ == (AuthData { users: Map::empty(), roles: Map::empty() }),
    {
        AuthCache { users: SortedMap::new(), roles: SortedMap::new() }
    }

    // --- User operations ---

    /// The user with the given name.
    pub fn get_user(&self, name: &str) -> (r: Option<User>)
        requires
            self.wf(),
        ensures
            match r {
                Some(user) => self@.users.contains_key(name@) && user@ == self@.users[name@],
                None => !self@.users.contains_key(name@),
            },
    {
        match self.users.get(name) {
            Some(user) => Some(user.copy()),
            None => None,
        }
    }

    /// The user with the given name, where it stands.
    pub fn find_user(&self, name: &str) -> (r: Option<&User>)
        requires
            self.wf(),
        ensures
            match r {
                Some(user) => self@.users.contains_key(name@) && user@ == self@.users[name@],
                None => !self@.users.contains_key(name@),
            },
    {
        self.users.get(name)
    }

    /// Puts a user in under its name.
    pub fn insert_user(&mut self, user: User)
        requires
            old(self).wf(),
        ensures
            final(self).wf(),
            final(self)@ == (AuthData {
                users: old(self)@.users.insert(user@.name, user@),
                ..old(self)@
            }),
    {
        let ghost entry = user@;
        self.users.insert(text(user.name.as_str()), user);
        proof {
            old(self)@.user_kept_named(entry);
            assert(self@ == (AuthData {
                users: old(self)@.users.insert(entry.name, entry),
                ..old(self)@
            }));
        }
    }

    /// Takes a user out.
    pub fn remove_user(&mut self, name: &str)
        requires
            old(self).wf(),
        ensures
            final(self).wf(),
            final(self)@ == (AuthData { users: old(self)@.users.remove(name@), ..old(self)@ }),
    {
        self.users.remove(name);
        proof {
            assert(self@ == (AuthData { users: old(self)@.users.remove(name@), ..old(self)@ }));
            assert forall|n: Seq<char>| #[trigger] self@.users.contains_key(n) implies self@.users[n].name
                == n by {
                assert(old(self)@.users.contains_key(n));
            }
        }
    }

    /// All users, in the order of their names.
    pub fn list_users(&self) -> (r: Vec<User>)
        requires
            self.wf(),
        ensures
            lists(self@.users, user_views(r@)),
    {
        let mut list: Vec<User> = Vec::new();
        let n: usize = self.users.len();
        let mut i: usize = 0;
        while i < n
            invariant
                i <= n == self.users.keys().len(),
                self.users.wf(),
                list@.len() == i,
                forall|j: int|
                    0 <= j < i ==> (#[trigger] list@[j])@ == self.users@[self.users.keys()[j]],
            decreases n - i,
        {
            proof {
                self.users.entries_in_view();
            }
            list.push(self.users.value_at(i).copy());
            i = i + 1;
        }
        proof {
            self.users.entries_in_view();
            let names = self.users.keys();
            assert(user_views(list@) =~= names.map_values(|name: Seq<char>| self@.users[name]));
            assert(lists_under(self@.users, names, user_views(list@)));
        }
        list
    }

    /// Check if any user references the given role
    pub fn is_role_in_use(&self, role_name: &str) -> (r: bool)
        requires
            self.wf(),
        ensures
            r == exists|name: Seq<char>| #[trigger]
                self@.users.contains_key(name) && self@.users[name].roles.contains(role_name@),
    {
        let n: usize = self.users.len();
        let mut i: usize = 0;
        proof {
            self.users.entries_in_view();
        }
        while i < n
            invariant
                i <= n == self.users.keys().len(),
                self.users.wf(),
                forall|j: int|
                    0 <= j < i ==> !self.users@[#[trigger] self.users.keys()[j]].roles.contains(
                        role_name@,
                    ),
            decreases n - i,
        {
            proof {
                self.users.entries_in_view();
            }
            if contains_text(&self.users.value_at(i).roles, role_name) {
                assert(self@.users.contains_key(self.users.keys()[i as int]));
                return true;
            }
            i = i + 1;
        }
        assert forall|name: Seq<char>| #[trigger] self@.users.contains_key(name) implies !self@.users[name].roles.contains(
            role_name@,
        ) by {
            self.users.entries_in_view();
            let j = self.users.keys().index_of(name);
            assert(self.users.keys()[j] == name);
        }
        false
    }

    // --- Role operations ---

    /// The role with the given name.
    pub fn get_role(&self, name: &str) -> (r: Option<Role>)
        requires
            self.wf(),
        ensures
            match r {
                Some(role) => self@.roles.contains_key(name@) && role@ == self@.roles[name@],
                None => !self@.roles.contains_key(name@),
            },
    {
        match self.roles.get(name) {
            Some(role) => Some(role.copy()),
            None => None,
        }
    }

    /// The role with the given name, where it stands.
    pub fn find_role(&self, name: &str) -> (r: Option<&Role>)
        requires
            self.wf(),
        ensures
            match r {
                Some(role) => self@.roles.contains_key(name@) && role@ == self@.roles[name@],
                None => !self@.roles.contains_key(name@),
            },
    {
        self.roles.get(name)
    }

    /// Puts a role in under its name.
    pub fn insert_role(&mut self, role: Role)
        requires
            old(self).wf(),
        ensures
            final(self).wf(),
            final(self)@ == (AuthData {
                roles: old(self)@.roles.insert(role@.name, role@),
                ..old(self)@
            }),
    {
        let ghost entry = role@;
        self.roles.insert(text(role.name.as_str()), role);
        proof {
            old(self)@.role_kept_named(entry);
            assert(self@ == (AuthData {
                roles: old(self)@.roles.insert(entry.name, entry),
                ..old(self)@
            }));
        }
    }

    /// Takes a role out.
    pub fn remove_role(&mut self, name: &str)
        requires
            old(self).wf(),
        ensures
            final(self).wf(),
            final(self)@ == (AuthData { roles: old(self)@.roles.remove(name@), ..old(self)@ }),
    {
        self.roles.remove(name);
        proof {
            assert(self@ == (AuthData { roles: old(self)@.roles.remove(name@), ..old(self)@ }));
            assert forall|n: Seq<char>| #[trigger] self@.roles.contains_key(n) implies self@.roles[n].name
                == n by {
                assert(old(self)@.roles.contains_key(n));
            }
        }
    }

    /// All roles, in the order of their names.
    pub fn list_roles(&self) -> (r: Vec<Role>)
        requires
            self.wf(),
        ensures
            lists(self@.roles, role_views(r@)),
    {
        let mut list: Vec<Role> = Vec::new();
        let n: usize = self.roles.len();
        let mut i: usize = 0;
        while i < n
            invariant
                i <= n == self.roles.keys().len(),
                self.roles.wf(),
                list@.len() == i,
                forall|j: int|
                    0 <= j < i ==> (#[trigger] list@[j])@ == self.roles@[self.roles.keys()[j]],
            decreases n - i,
        {
            proof {
                self.roles.entries_in_view();
            }
            list.push(self.roles.value_at(i).copy());
            i = i + 1;
        }
        proof {
            self.roles.entries_in_view();
            let names = self.roles.keys();
            assert(role_views(list@) =~= names.map_values(|name: Seq<char>| self@.roles[name]));
            assert(lists_under(self@.roles, names, role_views(list@)));
        }
        list
    }

    // --- Bulk load ---

    /// Puts users in, in order.
    pub fn load_users(&mut self, users: Vec<User>)
        requires
            old(self).wf(),
        ensures
            final(self).wf(),
            final(self)@ == (AuthData {
                users: with_users(old(self)@.users, user_views(users@)),
                ..old(self)@
            }),
    {
        let ghost all = user_views(users@);
        let mut i: usize = 0;
        assert(all.take(0) =~= Seq::empty());
        while i < users.len()
            invariant
                i <= users.len(),
                all == user_views(users@),
                self.wf(),
                self@.roles == old(self)@.roles,
                self@.users == with_users(old(self)@.users, all.take(i as int)),
            decreases users.len() - i,
        {
            proof {
                assert(all.take(i + 1).drop_last() =~= all.take(i as int));
                assert(all.take(i + 1).last() == users@[i as int]@);
            }
            self.insert_user(users[i].copy());
            i = i + 1;
        }
        assert(all.take(i as int) =~= all);
    }

    /// Puts roles in, in order.
    pub fn load_roles(&mut self, roles: Vec<Role>)
        requires
            old(self).wf(),
        ensures
            final(self).wf(),
            final(self)@ == (AuthData {
                roles: with_roles(old(self)@.roles, role_views(roles@)),
                ..old(self)@
            }),
    {
        let ghost all = role_views(roles@);
        let mut i: usize = 0;
        assert(all.take(0) =~= Seq::empty());
        while i < roles.len()
            invariant
                i <= roles.len(),
                all == role_views(roles@),
                self.wf(),
                self@.users == old(self)@.users,
                self@.roles == with_roles(old(self)@.roles, all.take(i as int)),
            decreases roles.len() - i,
        {
            proof {
                assert(all.take(i + 1).drop_last() =~= all.take(i as int));
                assert(all.take(i + 1).last() == roles@[i as int]@);
            }
            self.insert_role(roles[i].copy());
            i = i + 1;
        }
        assert(all.take(i as int) =~= all);
    }
}

impl Default for AuthCache {
    fn default() -> (r: Self)
        ensures
            r.wf(),
            r@ == (AuthData { users: Map::empty(), roles: Map::empty() }),
    {
        Self::new()
    }
}

/// After loading users, the last one of a name in the list is found under that
/// name, and under a name that is not in the list what was there before.
pub proof fn loaded_users_are_found(
    users: Map<Seq<char>, super::user::UserData>,
    list: Seq<super::user::UserData>,
    name: Seq<char>,
)
    ensures
        (forall|i: int| 0 <= i < list.len() ==> (#[trigger] list[i]).name != name) ==> {
            &&& with_users(users, list).contains_key(name) == users.contains_key(name)
            &&& with_users(users, list)[name] == users[name]
        },
        forall|i: int|
            0 <= i < list.len() && (#[trigger] list[i]).name == name && (forall|j: int|
                i < j < list.len() ==> (#[trigger] list[j]).name != name) ==> {
                &&& with_users(users, list).contains_key(name)
                &&& with_users(users, list)[name] == list[i]
            },
    decreases list.len(),
{
    if list.len() > 0 {
        let rest = list.drop_last();
        loaded_users_are_found(users, rest, name);
        assert(list[list.len() - 1] == list.last());
        if forall|i: int| 0 <= i < list.len() ==> (#[trigger] list[i]).name != name {
            assert forall|i: int| 0 <= i < rest.len() implies (#[trigger] rest[i]).name != name by {
                assert(list[i].name != name);
            }
        }
        assert forall|i: int|
            0 <= i < list.len() && (#[trigger] list[i]).name == name && (forall|j: int|
                i < j < list.len() ==> (#[trigger] list[j]).name != name) implies {
            &&& with_users(users, list).contains_key(name)
            &&& with_users(users, list)[name] == list[i]
        } by {
            if i < rest.len() {
                assert(rest[i] == list[i]);
                assert(list.last().name != name);
                assert forall|j: int| i < j < rest.len() implies (#[trigger] rest[j]).name
                    != name by {
                    assert(list[j].name != name);
                }
            }
        }
    }
}

/// After loading roles, the last one of a name in the list is found under that
/// name, and under a name that is not in the list what was there before.
pub proof fn loaded_roles_are_found(
    roles: Map<Seq<char>, super::role::RoleData>,
    list: Seq<super::role::RoleData>,
    name: Seq<char>,
)
    ensures
        (forall|i: int| 0 <= i < list.len() ==> (#[trigger] list[i]).name != name) ==> {
            &&& with_roles(roles, list).contains_key(name) == roles.contains_key(name)
            &&& with_roles(roles, list)[name] == roles[name]
        },
        forall|i: int|
            0 <= i < list.len() && (#[trigger] list[i]).name == name && (forall|j: int|
                i < j < list.len() ==> (#[trigger] list[j]).name != name) ==> {
                &&& with_roles(roles, list).contains_key(name)
                &&& with_roles(roles, list)[name] == list[i]
            },
    decreases list.len(),
{
    if list.len() > 0 {
        let rest = list.drop_last();
        loaded_roles_are_found(roles, rest, name);
        assert(list[list.len() - 1] == list.last());
        if forall|i: int| 0 <= i < list.len() ==> (#[trigger] list[i]).name != name {
            assert forall|i: int| 0 <= i < rest.len() implies (#[trigger] rest[i]).name != name by {
                assert(list[i].name != name);
            }
        }
        assert forall|i: int|
            0 <= i < list.len() && (#[trigger] list[i]).name == name && (forall|j: int|
                i < j < list.len() ==> (#[trigger] list[j]).name != name) implies {
            &&& with_roles(roles, list).contains_key(name)
            &&& with_roles(roles, list)[name] == list[i]
        } by {
            if i < rest.len() {
                assert(rest[i] == list[i]);
                assert(list.last().name != name);
                assert forall|j: int| i < j < rest.len() implies (#[trigger] rest[j]).name
                    != name by {
                    assert(list[j].name != name);
                }
            }
        }
    }
}

/// A list of a map holds the value of every name in it once, and nothing else, by
/// the bytes of the names.
pub proof fn lists_leave_nothing_out<D>(map: Map<Seq<char>, D>, list: Seq<D>)
    requires
        lists(map, list),
    ensures
        exists|names: Seq<Seq<char>>|
            {
                &&& #[trigger] names.len() == list.len()
                &&& forall|i: int|
                    0 <= i < names.len() ==> map.contains_key(#[trigger] names[i]) && list[i]
                        == map[names[i]]
                &&& forall|name: Seq<char>| #[trigger]
                    map.contains_key(name) ==> exists|i: int|
                        0 <= i < names.len() && #[trigger] names[i] == name
                &&& forall|i: int, j: int|
                    0 <= i < j < names.len() ==> crate::bytes::lex_lt(
                        vstd::utf8::encode_utf8(#[trigger] names[i]),
                        vstd::utf8::encode_utf8(#[trigger] names[j]),
                    )
            },
{
    let names = choose|names: Seq<Seq<char>>| lists_under(map, names, list);
    assert(names.len() == list.len());
    assert forall|i: int| 0 <= i < names.len() implies map.contains_key(#[trigger] names[i])
        && list[i] == map[names[i]] by {
        assert(names.to_set().contains(names[i]));
    }
    assert forall|name: Seq<char>| #[trigger] map.contains_key(name) implies exists|i: int|
        0 <= i < names.len() && #[trigger] names[i] == name by {
        assert(names.to_set().contains(name));
        assert(names[names.index_of(name)] == name);
    }
}

} // verus!
