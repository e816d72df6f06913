//! The users by name, and what is said to a wish to change them.

use crate::user::info::clone_grants;
use crate::user::info::grant_all;
use crate::user::info::granted;
use crate::user::info::release_target;
use crate::user::info::released;
use crate::user::info::revoke_all;
use crate::user::info::revoked;
use crate::user::info::AuthInfo;
use crate::user::info::AuthModel;
use crate::user::info::EncryptionType;
use crate::user::info::UserInfo;
use crate::user::info::UserModel;
use crate::user::privilege::GrantModel;
use crate::user::privilege::GrantPrivilege;
use crate::user::privilege::Target;
use vstd::prelude::*;
use vstd::slice::slice_to_vec;
use vstd::string::StringSliceAdditionalSpecFns;
use vstd::string::StringExecFns;

verus! {

/// Why a change to the users is refused.
#[derive(Clone, Copy, Debug, PartialEq, Eq, Structural)]
pub enum UserError {
    /// A user of that name is there already.
    UserAlreadyExists,
    /// No user has that name.
    UserNotFound,
    /// The default super user stays.
    CannotDropDefaultSuperUser,
    /// A user who holds privileges stays.
    CannotDropUserWithPrivileges,
    /// A super user is granted nothing: they may do everything.
    CannotGrantToSuperUser,
    /// From a super user nothing is revoked.
    CannotRevokeFromSuperUser,
}

/// The name of the super user who is there from the start.
pub const DEFAULT_SUPPER_USER: &'static str = "root";

/// The password of the super user who is there from the start.
pub const DEFAULT_SUPPER_USER_PASSWORD: &'static str = "";

/// The users by name, as they are held in memory.
pub struct UserCore {
    users: Vec<UserInfo>,
}

/// Whether no two of the users share a name.
pub open spec fn distinct_names(users: Seq<UserInfo>) -> bool {
    forall|i: int, j: int|
        0 <= i < j < users.len() ==> (#[trigger] users[i]).name@ != (#[trigger] users[j]).name@
}

/// Whether one of the users has this name.
pub open spec fn has_name(users: Seq<UserInfo>, name: Seq<char>) -> bool {
    exists|i: int| 0 <= i < users.len() && (#[trigger] users[i]).name@ == name
}

/// The users by name.
pub open spec fn users_by_name(users: Seq<UserInfo>) -> Map<Seq<char>, UserModel> {
    Map::new(
        |name: Seq<char>| has_name(users, name),
        |name: Seq<char>|
            users[choose|i: int| 0 <= i < users.len() && (#[trigger] users[i]).name@ == name]@,
    )
}

/// Where no two users share a name, each is the one found under their name.
pub proof fn lemma_users_by_name(users: Seq<UserInfo>, i: int)
    requires
        distinct_names(users),
        0 <= i < users.len(),
    ensures
        users_by_name(users).contains_key(users[i].name@),
        users_by_name(users)[users[i].name@] == users[i]@,
{
    let name = users[i].name@;
    let k = choose|k: int| 0 <= k < users.len() && (#[trigger] users[k]).name@ == name;
    if k < i {
        assert(users[k].name@ != users[i].name@);
    } else if i < k {
        assert(users[i].name@ != users[k].name@);
    }
}

impl View for UserCore {
    type V = Map<Seq<char>, UserModel>;

    closed spec fn view(&self) -> Map<Seq<char>, UserModel> {
        users_by_name(self.users@)
    }
}

impl UserCore {
    #[verifier::type_invariant]
    spec fn one_user_to_a_name(self) -> bool {
        distinct_names(self.users@)
    }

    /// No users at all.
    pub fn new() -> (core: Self)
        ensures
            core@ == Map::<Seq<char>, UserModel>::empty(),
    {
        let core = UserCore { users: Vec::new() };
        assert(core@ =~= Map::<Seq<char>, UserModel>::empty());
        core
    }

    /// Where the user of this name stands.
    fn position(&self, user_name: &String) -> (found: Option<usize>)
        ensures
            match found {
                Some(i) => i < self.users@.len() && self.users@[i as int].name@ == user_name@
                    && self@.contains_key(user_name@) && self@[user_name@]
                    == self.users@[i as int]@,
                None => !self@.contains_key(user_name@),
            },
    {
        proof {
            use_type_invariant(self);
        }
        let mut i: usize = 0;
        while i < self.users.len()
            invariant
                distinct_names(self.users@),
                i <= self.users.len(),
                forall|k: int| 0 <= k < i ==> (#[trigger] self.users@[k]).name@ != user_name@,
            decreases self.users.len() - i,
        {
            if self.users[i].name == *user_name {
                proof {
                    lemma_users_by_name(self.users@, i as int);
                }
                return Some(i);
            }
            i += 1;
        }
        None
    }

    /// Takes the users out and leaves none behind.
    fn take_users(&mut self) -> (users: Vec<UserInfo>)
        ensures
            users == old(self).users,
            distinct_names(users@),
    {
        let mut taken = UserCore { users: Vec::new() };
        core::mem::swap(self, &mut taken);
        proof {
            use_type_invariant(&taken);
        }
        taken.users
    }

    /// Whether a user of this name is there.
    pub fn contains_user(&self, user_name: &String) -> (found: bool)
        ensures
            found == self@.contains_key(user_name@),
    {
        self.position(user_name).is_some()
    }

    /// Puts the user under their name, in the place of whoever had it.
    pub fn insert_user(&mut self, user: UserInfo)
        ensures
            final(self)@ == old(self)@.insert(user.name@, user@),
    {
        let found = self.position(&user.name);
        let mut users = self.take_users();
        match found {
            Some(i) => {
                proof {
                    lemma_set_user(users@, i as int, user);
                }
                users.set(i, user);
            },
            None => {
                proof {
                    lemma_push_user(users@, user);
                }
                users.push(user);
            },
        }
        *self = UserCore { users };
    }

    /// Takes the user of this name away, if there is one.
    pub fn remove_user(&mut self, user_name: &String)
        ensures
            final(self)@ == old(self)@.remove(user_name@),
    {
        let found = self.position(user_name);
        let mut users = self.take_users();
        match found {
            Some(i) => {
                proof {
                    lemma_remove_user(users@, i as int);
                }
                users.remove(i);
            },
            None => {
                assert(users_by_name(users@).remove(user_name@) =~= users_by_name(users@));
            },
        }
        *self = UserCore { users };
    }

    /// The users that `users` leaves where each is put under their name in
    /// turn: of two with one name the later stays.
    pub fn from_users(users: Vec<UserInfo>) -> (core: Self)
        ensures
            core@ == inserted_all(users@),
    {
        let mut core = UserCore::new();
        let mut i: usize = 0;
        assert(users@.take(0) =~= Seq::<UserInfo>::empty());
        while i < users.len()
            invariant
                i <= users.len(),
                    core@ == inserted_all(users@.take(i as int)),
            decreases users.len() - i,
        {
            core.insert_user(users[i].clone());
            proof {
                assert(users@.take(i + 1).drop_last() =~= users@.take(i as int));
            }
            i += 1;
        }
        assert(users@.take(users@.len() as int) =~= users@);
        core
    }

    /// The super user to start with, where no user has that name yet.
    pub fn init(&self) -> (missing: Option<UserInfo>)
        ensures
            self@.contains_key(DEFAULT_SUPPER_USER@) ==> missing is None,
            !self@.contains_key(DEFAULT_SUPPER_USER@) ==> (missing matches Some(user) && user@
                == default_user_model()),
    {
        let default_user = default_user();
        if self.contains_user(&default_user.name) {
            None
        } else {
            Some(default_user)
        }
    }

    /// Every user, each once; in which order is left open.
    pub fn list_users(&self) -> (users: Vec<UserInfo>)
        ensures
            distinct_names(users@),
            forall|i: int|
                0 <= i < users@.len() ==> self@.contains_key((#[trigger] users@[i]).name@)
                    && self@[users@[i].name@] == users@[i]@,
            forall|name: Seq<char>| #[trigger] self@.contains_key(name) ==> has_name(users@, name),
    {
        proof {
            use_type_invariant(self);
        }
        let mut users: Vec<UserInfo> = Vec::new();
        let mut i: usize = 0;
        while i < self.users.len()
            invariant
                i <= self.users.len(),
                users@.len() == i,
                forall|k: int|
                    0 <= k < i ==> (#[trigger] users@[k]).name@ == self.users@[k].name@
                        && users@[k]@ == self.users@[k]@,
            decreases self.users.len() - i,
        {
            users.push(self.users[i].clone());
            i += 1;
        }
        proof {
            assert forall|a: int, b: int| 0 <= a < b < users@.len() implies (
            #[trigger] users@[a]).name@ != (#[trigger] users@[b]).name@ by {
                assert(self.users@[a].name@ != self.users@[b].name@);
            }
            assert forall|k: int| 0 <= k < users@.len() implies self@.contains_key(
                (#[trigger] users@[k]).name@,
            ) && self@[users@[k].name@] == users@[k]@ by {
                lemma_users_by_name(self.users@, k);
            }
            assert forall|name: Seq<char>| #[trigger] self@.contains_key(name) implies has_name(
                users@,
                name,
            ) by {
                let k = choose|k: int|
                    0 <= k < self.users@.len() && (#[trigger] self.users@[k]).name@ == name;
                assert(users@[k].name@ == name);
            }
        }
        users
    }

    /// Whether `user` can be created: it can where nobody has the name yet.
    pub fn check_create_user(&self, user: &UserInfo) -> (r: Result<(), UserError>)
        ensures
            self@.contains_key(user.name@) ==> r == Err::<(), UserError>(
                UserError::UserAlreadyExists,
            ),
            !self@.contains_key(user.name@) ==> r is Ok,
    {
        if self.contains_user(&user.name) {
            Err(UserError::UserAlreadyExists)
        } else {
            Ok(())
        }
    }

    /// The user of this name.
    pub fn get_user(&self, user_name: &String) -> (r: Result<UserInfo, UserError>)
        ensures
            self@.contains_key(user_name@) ==> (r matches Ok(user) && user@ == self@[user_name@]),
            !self@.contains_key(user_name@) ==> r == Err::<UserInfo, UserError>(
                UserError::UserNotFound,
            ),
    {
        match self.position(user_name) {
            Some(i) => Ok(self.users[i].clone()),
            None => Err(UserError::UserNotFound),
        }
    }

    /// Whether the user of this name can be dropped: they can where they are
    /// there, are not the default super user and hold no privileges.
    pub fn check_drop_user(&self, user_name: &String) -> (r: Result<(), UserError>)
        ensures
            r == drop_verdict(self@, user_name@),
    {
        let i = match self.position(user_name) {
            Some(i) => i,
            None => {
                return Err(UserError::UserNotFound);
            },
        };
        if *user_name == String::from_str(DEFAULT_SUPPER_USER) {
            return Err(UserError::CannotDropDefaultSuperUser);
        }
        if !self.users[i].grant_privileges.is_empty() {
            return Err(UserError::CannotDropUserWithPrivileges);
        }
        Ok(())
    }

    /// The user of this name with the new privileges granted, to be put
    /// in the place of the user as they are.
    pub fn grant_privilege(
        &self,
        user_name: &String,
        new_grant_privileges: &[GrantPrivilege],
    ) -> (r: Result<UserInfo, UserError>)
        ensures
            !self@.contains_key(user_name@) ==> r == Err::<UserInfo, UserError>(
                UserError::UserNotFound,
            ),
            self@.contains_key(user_name@) && self@[user_name@].is_supper ==> r == Err::<
                UserInfo,
                UserError,
            >(UserError::CannotGrantToSuperUser),
            self@.contains_key(user_name@) && !self@[user_name@].is_supper ==> (r matches Ok(user)
                && user@ == (UserModel {
                grant_privileges: granted(
                    self@[user_name@].grant_privileges,
                    new_grant_privileges@,
                ),
                ..self@[user_name@]
            })),
    {
        let mut user = match self.position(user_name) {
            Some(i) => self.users[i].clone(),
            None => {
                return Err(UserError::UserNotFound);
            },
        };
        if user.is_supper {
            return Err(UserError::CannotGrantToSuperUser);
        }
        let mut grants = clone_grants(&user.grant_privileges);
        grant_all(&mut grants, new_grant_privileges);
        user.grant_privileges = grants;
        Ok(user)
    }

    /// The user of this name with the privileges revoked, to be put in the
    /// place of the user as they are.
    pub fn revoke_privilege(
        &self,
        user_name: &String,
        revoke_grant_privileges: &[GrantPrivilege],
        revoke_grant_option: bool,
    ) -> (r: Result<UserInfo, UserError>)
        ensures
            !self@.contains_key(user_name@) ==> r == Err::<UserInfo, UserError>(
                UserError::UserNotFound,
            ),
            self@.contains_key(user_name@) && self@[user_name@].is_supper ==> r == Err::<
                UserInfo,
                UserError,
            >(UserError::CannotRevokeFromSuperUser),
            self@.contains_key(user_name@) && !self@[user_name@].is_supper ==> (r matches Ok(user)
                && user@ == (UserModel {
                grant_privileges: revoked(
                    self@[user_name@].grant_privileges,
                    revoke_grant_privileges@,
                    revoke_grant_option,
                ),
                ..self@[user_name@]
            })),
    {
        let mut user = match self.position(user_name) {
            Some(i) => self.users[i].clone(),
            None => {
                return Err(UserError::UserNotFound);
            },
        };
        if user.is_supper {
            return Err(UserError::CannotRevokeFromSuperUser);
        }
        let mut grants = clone_grants(&user.grant_privileges);
        revoke_all(&mut grants, revoke_grant_privileges, revoke_grant_option);
        user.grant_privileges = grants;
        Ok(user)
    }

    /// The users who hold a grant about `target`, each without the grants
    /// about it: they are to be put in the place of the users as they are.
    /// In which order they come is left open.
    pub fn release_privileges(&self, target: &Target) -> (users_need_update: Vec<UserInfo>)
        ensures
            distinct_names(users_need_update@),
            forall|i: int|
                0 <= i < users_need_update@.len() ==> {
                    let user = #[trigger] users_need_update@[i];
                    &&& self@.contains_key(user.name@)
                    &&& holds_grant_about(self@[user.name@], *target)
                    &&& user@ == released_user(self@[user.name@], *target)
                },
            forall|name: Seq<char>| #[trigger]
                self@.contains_key(name) && holds_grant_about(self@[name], *target) ==> has_name(
                    users_need_update@,
                    name,
                ),
    {
        proof {
            use_type_invariant(self);
        }
        let mut users_need_update: Vec<UserInfo> = Vec::new();
        let ghost mut places: Seq<int> = Seq::empty();
        let mut i: usize = 0;
        while i < self.users.len()
            invariant
                i <= self.users.len(),
                places.len() == users_need_update@.len(),
                forall|k: int|
                    0 <= k < places.len() ==> {
                        let user = #[trigger] users_need_update@[k];
                        let from = self.users@[places[k]];
                        &&& 0 <= places[k] < i
                        &&& user.name@ == from.name@
                        &&& holds_grant_about(from@, *target)
                        &&& user@ == released_user(from@, *target)
                    },
                forall|k: int| 0 <= k < places.len() ==> 0 <= #[trigger] places[k] < i,
                forall|a: int, b: int| 0 <= a < b < places.len() ==> places[a] < places[b],
                forall|k: int|
                    0 <= k < i && holds_grant_about((#[trigger] self.users@[k])@, *target)
                        ==> places.contains(k),
            decreases self.users.len() - i,
        {
            let cnt = self.users[i].grant_privileges.len();
            let kept = release_target(&self.users[i].grant_privileges, target);
            if cnt != kept.len() {
                let mut user = self.users[i].clone();
                user.grant_privileges = kept;
                users_need_update.push(user);
                proof {
                    let before = places;
                    places = places.push(i as int);
                    assert forall|k: int|
                        0 <= k < i + 1 && holds_grant_about(
                            (#[trigger] self.users@[k])@,
                            *target,
                        ) implies places.contains(k) by {
                        if k < i {
                            let at = choose|at: int| 0 <= at < before.len() && before[at] == k;
                            assert(places[at] == k);
                        } else {
                            assert(places[before.len() as int] == k);
                        }
                    }
                }
            } else {
                proof {
                    let grants = self.users@[i as int]@.grant_privileges;
                    assert(kept@.len() == grants.len());
                }
            }
            i += 1;
        }
        proof {
            assert forall|a: int, b: int| 0 <= a < b < users_need_update@.len() implies (
            #[trigger] users_need_update@[a]).name@ != (#[trigger] users_need_update@[b]).name@ by {
                assert(self.users@[places[a]].name@ != self.users@[places[b]].name@);
            }
            assert forall|k: int| 0 <= k < users_need_update@.len() implies {
                let user = #[trigger] users_need_update@[k];
                &&& self@.contains_key(user.name@)
                &&& holds_grant_about(self@[user.name@], *target)
                &&& user@ == released_user(self@[user.name@], *target)
            } by {
                lemma_users_by_name(self.users@, places[k]);
            }
            assert forall|name: Seq<char>| #[trigger]
                self@.contains_key(name) && holds_grant_about(
                    self@[name],
                    *target,
                ) implies has_name(users_need_update@, name) by {
                let k = choose|k: int|
                    0 <= k < self.users@.len() && (#[trigger] self.users@[k]).name@ == name;
                lemma_users_by_name(self.users@, k);
                assert(places.contains(k));
                let at = choose|at: int| 0 <= at < places.len() && places[at] == k;
                assert(users_need_update@[at].name@ == name);
            }
        }
        users_need_update
    }
}

/// Whether the user holds more grants than are left when those about
/// `target` are taken away.
pub open spec fn holds_grant_about(user: UserModel, target: Target) -> bool {
    released(user.grant_privileges, target).len() != user.grant_privileges.len()
}

/// The user without the grants about `target`.
pub open spec fn released_user(user: UserModel, target: Target) -> UserModel {
    UserModel { grant_privileges: released(user.grant_privileges, target), ..user }
}

/// What is said to the wish to drop the user of this name.
pub open spec fn drop_verdict(users: Map<Seq<char>, UserModel>, name: Seq<char>) -> Result<
    (),
    UserError,
> {
    if !users.contains_key(name) {
        Err(UserError::UserNotFound)
    } else if name == DEFAULT_SUPPER_USER@ {
        Err(UserError::CannotDropDefaultSuperUser)
    } else if users[name].grant_privileges.len() > 0 {
        Err(UserError::CannotDropUserWithPrivileges)
    } else {
        Ok(())
    }
}

/// The users after each of `users` is put under their name in turn.
pub open spec fn inserted_all(users: Seq<UserInfo>) -> Map<Seq<char>, UserModel>
    decreases users.len(),
{
    if users.len() == 0 {
        Map::empty()
    } else {
        inserted_all(users.drop_last()).insert(users.last().name@, users.last()@)
    }
}

/// The super user who is there from the start: they may log in and create
/// databases, and their password is kept as it is.
pub open spec fn default_user_model() -> UserModel {
    UserModel {
        name: DEFAULT_SUPPER_USER@,
        is_supper: true,
        can_create_db: true,
        can_login: true,
        auth_info: Some(
            AuthModel {
                encryption_type: EncryptionType::Plaintext.number(),
                encrypted_value: DEFAULT_SUPPER_USER_PASSWORD.spec_bytes(),
            },
        ),
        grant_privileges: Seq::empty(),
    }
}

/// The super user who is there from the start.
pub fn default_user() -> (user: UserInfo)
    ensures
        user@ == default_user_model(),
{
    let user = UserInfo {
        name: String::from_str(DEFAULT_SUPPER_USER),
        is_supper: true,
        can_create_db: true,
        can_login: true,
        auth_info: Some(
            AuthInfo {
                encryption_type: EncryptionType::Plaintext.as_i32(),
                encrypted_value: slice_to_vec(DEFAULT_SUPPER_USER_PASSWORD.as_bytes()),
            },
        ),
        grant_privileges: Vec::new(),
    };
    assert(user@.grant_privileges =~= Seq::<GrantModel>::empty());
    user
}

/// Putting a user in the place of the one who has their name keeps the names
/// apart and changes what is found under that name only.
pub proof fn lemma_set_user(before: Seq<UserInfo>, i: int, user: UserInfo)
    requires
        distinct_names(before),
        0 <= i < before.len(),
        before[i].name@ == user.name@,
    ensures
        distinct_names(before.update(i, user)),
        users_by_name(before.update(i, user)) == users_by_name(before).insert(user.name@, user@),
{
    let after = before.update(i, user);
    assert forall|a: int, b: int| 0 <= a < b < after.len() implies (#[trigger] after[a]).name@ != (
    #[trigger] after[b]).name@ by {
        assert(before[a].name@ != before[b].name@);
    }
    assert forall|name: Seq<char>| #[trigger]
        has_name(after, name) == (has_name(before, name) || name == user.name@) by {
        if has_name(after, name) {
            let k = choose|k: int| 0 <= k < after.len() && (#[trigger] after[k]).name@ == name;
            assert(before[k].name@ == name);
        }
        if has_name(before, name) {
            let k = choose|k: int| 0 <= k < before.len() && (#[trigger] before[k]).name@ == name;
            assert(after[k].name@ == name);
        }
        if name == user.name@ {
            assert(after[i].name@ == name);
        }
    }
    assert forall|name: Seq<char>| has_name(after, name) implies #[trigger] users_by_name(
        after,
    )[name] == users_by_name(before).insert(user.name@, user@)[name] by {
        let k = choose|k: int| 0 <= k < after.len() && (#[trigger] after[k]).name@ == name;
        lemma_users_by_name(after, k);
        if name != user.name@ {
            assert(before[k] == after[k]);
            lemma_users_by_name(before, k);
        } else {
            lemma_users_by_name(after, i);
        }
    }
    assert(users_by_name(after) =~= users_by_name(before).insert(user.name@, user@));
}

/// Putting a user whose name nobody has at the end keeps the names apart and
/// adds what is found under that name.
pub proof fn lemma_push_user(before: Seq<UserInfo>, user: UserInfo)
    requires
        distinct_names(before),
        !has_name(before, user.name@),
    ensures
        distinct_names(before.push(user)),
        users_by_name(before.push(user)) == users_by_name(before).insert(user.name@, user@),
{
    let after = before.push(user);
    assert forall|a: int, b: int| 0 <= a < b < after.len() implies (#[trigger] after[a]).name@ != (
    #[trigger] after[b]).name@ by {
        if b == before.len() {
            if after[a].name@ == user.name@ {
                assert(before[a].name@ == user.name@);
            }
        } else {
            assert(before[a].name@ != before[b].name@);
        }
    }
    assert forall|name: Seq<char>| #[trigger]
        has_name(after, name) == (has_name(before, name) || name == user.name@) by {
        if has_name(after, name) {
            let k = choose|k: int| 0 <= k < after.len() && (#[trigger] after[k]).name@ == name;
            if k < before.len() {
                assert(before[k].name@ == name);
            }
        }
        if has_name(before, name) {
            let k = choose|k: int| 0 <= k < before.len() && (#[trigger] before[k]).name@ == name;
            assert(after[k].name@ == name);
        }
        if name == user.name@ {
            assert(after[before.len() as int].name@ == name);
        }
    }
    assert forall|name: Seq<char>| has_name(after, name) implies #[trigger] users_by_name(
        after,
    )[name] == users_by_name(before).insert(user.name@, user@)[name] by {
        let k = choose|k: int| 0 <= k < after.len() && (#[trigger] after[k]).name@ == name;
        lemma_users_by_name(after, k);
        if k < before.len() {
            assert(before[k] == after[k]);
            lemma_users_by_name(before, k);
        }
    }
    assert(users_by_name(after) =~= users_by_name(before).insert(user.name@, user@));
}

/// Taking a user away keeps the names apart and leaves nothing under their
/// name.
pub proof fn lemma_remove_user(before: Seq<UserInfo>, i: int)
    requires
        distinct_names(before),
        0 <= i < before.len(),
    ensures
        distinct_names(before.remove(i)),
        users_by_name(before.remove(i)) == users_by_name(before).remove(before[i].name@),
{
    let after = before.remove(i);
    let gone = before[i].name@;
    assert forall|a: int, b: int| 0 <= a < b < after.len() implies (#[trigger] after[a]).name@ != (
    #[trigger] after[b]).name@ by {
        let from_a = if a < i { a } else { a + 1 };
        let from_b = if b < i { b } else { b + 1 };
        assert(before[from_a].name@ != before[from_b].name@);
    }
    assert forall|name: Seq<char>| #[trigger]
        has_name(after, name) == (has_name(before, name) && name != gone) by {
        if has_name(after, name) {
            let k = choose|k: int| 0 <= k < after.len() && (#[trigger] after[k]).name@ == name;
            let from = if k < i { k } else { k + 1 };
            assert(before[from].name@ == name);
            if from < i {
                assert(before[from].name@ != before[i].name@);
            } else {
                assert(before[i].name@ != before[from].name@);
            }
        }
        if has_name(before, name) && name != gone {
            let k = choose|k: int| 0 <= k < before.len() && (#[trigger] before[k]).name@ == name;
            let to = if k < i { k } else { k - 1 };
            assert(after[to].name@ == name);
        }
    }
    assert forall|name: Seq<char>| has_name(after, name) implies #[trigger] users_by_name(
        after,
    )[name] == users_by_name(before).remove(gone)[name] by {
        let k = choose|k: int| 0 <= k < after.len() && (#[trigger] after[k]).name@ == name;
        let from = if k < i { k } else { k + 1 };
        lemma_users_by_name(after, k);
        assert(before[from] == after[k]);
        lemma_users_by_name(before, from);
    }
    assert(users_by_name(after) =~= users_by_name(before).remove(gone));
}

} // verus!
