//! A user, and the rules by which the grants of one user change.

use crate::user::privilege::merge_privilege;
use crate::user::privilege::merged_options;
use crate::user::privilege::revoke_privilege_inner;
use crate::user::privilege::revoked_options;
use crate::user::privilege::GrantModel;
use crate::user::privilege::GrantPrivilege;
use crate::user::privilege::Target;
use vstd::prelude::*;

verus! {

/// How a user's secret is kept.
#[derive(Clone, Copy, Debug, PartialEq, Eq, Structural)]
pub enum EncryptionType {
    Unknown,
    Plaintext,
    Sha256,
    Md5,
}

impl EncryptionType {
    /// The number under which the kind is kept.
    pub open spec fn number(self) -> i32 {
        match self {
            EncryptionType::Unknown => 0,
            EncryptionType::Plaintext => 1,
            EncryptionType::Sha256 => 2,
            EncryptionType::Md5 => 3,
        }
    }

    pub fn as_i32(self) -> (n: i32)
        ensures
            n == self.number(),
    {
        match self {
            EncryptionType::Unknown => 0,
            EncryptionType::Plaintext => 1,
            EncryptionType::Sha256 => 2,
            EncryptionType::Md5 => 3,
        }
    }
}

/// What a user proves who they are with.
#[derive(Debug, PartialEq, Eq)]
pub struct AuthInfo {
    pub encryption_type: i32,
    pub encrypted_value: Vec<u8>,
}

pub struct AuthModel {
    pub encryption_type: i32,
    pub encrypted_value: Seq<u8>,
}

impl View for AuthInfo {
    type V = AuthModel;

    open spec fn view(&self) -> AuthModel {
        AuthModel { encryption_type: self.encryption_type, encrypted_value: self.encrypted_value@ }
    }
}

impl Clone for AuthInfo {
    fn clone(&self) -> (copy: Self)
        ensures
            copy@ == self@,
    {
        let encrypted_value = self.encrypted_value.clone();
        assert(encrypted_value@ =~= self.encrypted_value@);
        AuthInfo { encryption_type: self.encryption_type, encrypted_value }
    }
}

/// A user: who they are and what they hold.
#[derive(Debug, PartialEq, Eq)]
pub struct UserInfo {
    pub name: String,
    pub is_supper: bool,
    pub can_create_db: bool,
    pub can_login: bool,
    pub auth_info: Option<AuthInfo>,
    pub grant_privileges: Vec<GrantPrivilege>,
}

pub struct UserModel {
    pub name: Seq<char>,
    pub is_supper: bool,
    pub can_create_db: bool,
    pub can_login: bool,
    pub auth_info: Option<AuthModel>,
    pub grant_privileges: Seq<GrantModel>,
}

/// What a list of grants says, grant by grant.
pub open spec fn grants_model(grants: Seq<GrantPrivilege>) -> Seq<GrantModel> {
    Seq::new(grants.len(), |i: int| grants[i]@)
}

impl View for UserInfo {
    type V = UserModel;

    open spec fn view(&self) -> UserModel {
        UserModel {
            name: self.name@,
            is_supper: self.is_supper,
            can_create_db: self.can_create_db,
            can_login: self.can_login,
            auth_info: match self.auth_info {
                Some(auth) => Some(auth@),
                None => None,
            },
            grant_privileges: grants_model(self.grant_privileges@),
        }
    }
}

/// A copy of the grants, each as it stands.
pub fn clone_grants(grants: &Vec<GrantPrivilege>) -> (copy: Vec<GrantPrivilege>)
    ensures
        copy@.len() == grants@.len(),
        forall|i: int|
            0 <= i < grants@.len() ==> (#[trigger] copy@[i]).target == grants@[i].target
                && copy@[i].privilege_with_opts@ == grants@[i].privilege_with_opts@,
        grants_model(copy@) == grants_model(grants@),
{
    let mut copy: Vec<GrantPrivilege> = Vec::new();
    let mut i: usize = 0;
    while i < grants.len()
        invariant
            i <= grants.len(),
            copy@.len() == i,
            forall|k: int|
                0 <= k < i ==> (#[trigger] copy@[k]).target == grants@[k].target
                    && copy@[k].privilege_with_opts@ == grants@[k].privilege_with_opts@,
        decreases grants.len() - i,
    {
        copy.push(grants[i].clone());
        i += 1;
    }
    assert(grants_model(copy@) =~= grants_model(grants@));
    copy
}

impl Clone for UserInfo {
    fn clone(&self) -> (copy: Self)
        ensures
            copy@ == self@,
            copy.name == self.name,
    {
        UserInfo {
            name: self.name.clone(),
            is_supper: self.is_supper,
            can_create_db: self.can_create_db,
            can_login: self.can_login,
            auth_info: match &self.auth_info {
                Some(auth) => Some(auth.clone()),
                None => None,
            },
            grant_privileges: clone_grants(&self.grant_privileges),
        }
    }
}

/// Where the first grant about `target` stands in the list; the length of
/// the list where there is none.
pub open spec fn first_about(grants: Seq<GrantModel>, target: Option<Target>) -> int
    decreases grants.len(),
{
    if grants.len() == 0 {
        0
    } else if grants[0].target == target {
        0
    } else {
        1 + first_about(grants.drop_first(), target)
    }
}

/// The place that `first_about` gives is the first one of a grant about the
/// target.
pub proof fn lemma_first_about(grants: Seq<GrantModel>, target: Option<Target>, i: int)
    requires
        0 <= i <= grants.len(),
        forall|k: int| 0 <= k < i ==> (#[trigger] grants[k]).target != target,
        i < grants.len() ==> grants[i].target == target,
    ensures
        first_about(grants, target) == i,
    decreases grants.len(),
{
    if i > 0 {
        let rest = grants.drop_first();
        assert forall|k: int| 0 <= k < i - 1 implies (#[trigger] rest[k]).target != target by {
            assert(rest[k] == grants[k + 1]);
        }
        lemma_first_about(rest, target, i - 1);
    }
}

/// The grants after one more is given: merged into the first grant about
/// the same target, or put at the end where there is none.
pub open spec fn granted_one(grants: Seq<GrantModel>, new: GrantPrivilege) -> Seq<GrantModel> {
    let i = first_about(grants, new.target);
    if i < grants.len() {
        grants.update(
            i,
            GrantModel {
                target: new.target,
                options: merged_options(grants[i].options, new.privilege_with_opts@),
            },
        )
    } else {
        grants.push(new@)
    }
}

/// The grants after each of `new` is given in turn.
pub open spec fn granted(grants: Seq<GrantModel>, new: Seq<GrantPrivilege>) -> Seq<GrantModel>
    decreases new.len(),
{
    if new.len() == 0 {
        grants
    } else {
        granted_one(granted(grants, new.drop_last()), new.last())
    }
}

/// Where the first grant about the target stands, or none.
pub fn find_target(grants: &Vec<GrantPrivilege>, target: &Option<Target>) -> (found: Option<usize>)
    ensures
        match found {
            Some(i) => i < grants@.len() && grants@[i as int].target == *target && first_about(
                grants_model(grants@),
                *target,
            ) == i,
            None => first_about(grants_model(grants@), *target) == grants@.len(),
        },
{
    let mut i: usize = 0;
    while i < grants.len()
        invariant
            i <= grants.len(),
            forall|k: int| 0 <= k < i ==> (#[trigger] grants_model(grants@)[k]).target != *target,
        decreases grants.len() - i,
    {
        if grants[i].target == *target {
            proof {
                lemma_first_about(grants_model(grants@), *target, i as int);
            }
            return Some(i);
        }
        i += 1;
    }
    proof {
        lemma_first_about(grants_model(grants@), *target, grants@.len() as int);
    }
    None
}

/// Gives one more grant to the list.
pub fn grant_one(grants: &mut Vec<GrantPrivilege>, new_grant_privilege: &GrantPrivilege)
    ensures
        grants_model(final(grants)@) == granted_one(
            grants_model(old(grants)@),
            *new_grant_privilege,
        ),
{
    let ghost before = grants_model(grants@);
    match find_target(grants, &new_grant_privilege.target) {
        Some(i) => {
            let mut privilege = grants[i].clone();
            merge_privilege(&mut privilege, new_grant_privilege);
            grants.set(i, privilege);
            assert(grants_model(grants@) =~= before.update(i as int, privilege@));
        },
        None => {
            let copy = new_grant_privilege.clone();
            grants.push(copy);
            assert(grants_model(grants@) =~= before.push(new_grant_privilege@));
        },
    }
}

/// Gives each of the new grants in turn.
pub fn grant_all(grants: &mut Vec<GrantPrivilege>, new_grant_privileges: &[GrantPrivilege])
    ensures
        grants_model(final(grants)@) == granted(
            grants_model(old(grants)@),
            new_grant_privileges@,
        ),
{
    let mut i: usize = 0;
    while i < new_grant_privileges.len()
        invariant
            i <= new_grant_privileges.len(),
            grants_model(grants@) == granted(
                grants_model(old(grants)@),
                new_grant_privileges@.take(i as int),
            ),
        decreases new_grant_privileges.len() - i,
    {
        grant_one(grants, &new_grant_privileges[i]);
        proof {
            let new = new_grant_privileges@;
            assert(new.take(i + 1).drop_last() =~= new.take(i as int));
        }
        i += 1;
    }
    proof {
        let new = new_grant_privileges@;
        assert(new.take(new.len() as int) =~= new);
    }
}

/// Whether the grant holds no privilege at all.
pub open spec fn holds_nothing(grant: GrantModel) -> bool {
    forall|privilege: i32| !grant.options.contains_key(privilege)
}

/// A list of privileges says nothing exactly where it is empty.
pub proof fn lemma_holds_nothing(grant: GrantPrivilege)
    ensures
        holds_nothing(grant@) <==> grant.privilege_with_opts@.len() == 0,
{
    let opts = grant.privilege_with_opts@;
    if opts.len() > 0 {
        assert(grant@.options.contains_key(opts.last().privilege));
    } else {
        assert(grant@.options =~= Map::<i32, bool>::empty());
    }
}

/// The grants after one revocation: it is applied to the first grant about
/// its target, and to none where there is no such grant.
pub open spec fn revoked_one(
    grants: Seq<GrantModel>,
    revoke: GrantPrivilege,
    revoke_grant_option: bool,
) -> Seq<GrantModel> {
    let i = first_about(grants, revoke.target);
    if i < grants.len() {
        grants.update(
            i,
            GrantModel {
                target: revoke.target,
                options: revoked_options(
                    grants[i].options,
                    revoke.privilege_with_opts@,
                    revoke_grant_option,
                ),
            },
        )
    } else {
        grants
    }
}

/// Whether the revocation leaves the grant that it is applied to with no
/// privilege.
pub open spec fn empties_one(
    grants: Seq<GrantModel>,
    revoke: GrantPrivilege,
    revoke_grant_option: bool,
) -> bool {
    let i = first_about(grants, revoke.target);
    i < grants.len() && holds_nothing(revoked_one(grants, revoke, revoke_grant_option)[i])
}

/// The grants after each of the revocations in turn. Grants that are left
/// with no privilege stay in the list.
pub open spec fn revoked_each(
    grants: Seq<GrantModel>,
    revokes: Seq<GrantPrivilege>,
    revoke_grant_option: bool,
) -> Seq<GrantModel>
    decreases revokes.len(),
{
    if revokes.len() == 0 {
        grants
    } else {
        revoked_one(
            revoked_each(grants, revokes.drop_last(), revoke_grant_option),
            revokes.last(),
            revoke_grant_option,
        )
    }
}

/// Whether one of the revocations, applied in turn, leaves its grant with no
/// privilege.
pub open spec fn empties_some(
    grants: Seq<GrantModel>,
    revokes: Seq<GrantPrivilege>,
    revoke_grant_option: bool,
) -> bool
    decreases revokes.len(),
{
    if revokes.len() == 0 {
        false
    } else {
        empties_some(grants, revokes.drop_last(), revoke_grant_option) || empties_one(
            revoked_each(grants, revokes.drop_last(), revoke_grant_option),
            revokes.last(),
            revoke_grant_option,
        )
    }
}

/// The grants after the revocations: each is applied in turn, and where one
/// of them left its grant with no privilege, every grant with no privilege
/// leaves the list.
pub open spec fn revoked(
    grants: Seq<GrantModel>,
    revokes: Seq<GrantPrivilege>,
    revoke_grant_option: bool,
) -> Seq<GrantModel> {
    let each = revoked_each(grants, revokes, revoke_grant_option);
    if empties_some(grants, revokes, revoke_grant_option) {
        each.filter(|grant: GrantModel| !holds_nothing(grant))
    } else {
        each
    }
}

/// Applies one revocation, and tells whether it left its grant with no
/// privilege.
pub fn revoke_one(
    grants: &mut Vec<GrantPrivilege>,
    revoke_grant_privilege: &GrantPrivilege,
    revoke_grant_option: bool,
) -> (emptied: bool)
    ensures
        grants_model(final(grants)@) == revoked_one(
            grants_model(old(grants)@),
            *revoke_grant_privilege,
            revoke_grant_option,
        ),
        emptied == empties_one(
            grants_model(old(grants)@),
            *revoke_grant_privilege,
            revoke_grant_option,
        ),
{
    let ghost before = grants_model(grants@);
    match find_target(grants, &revoke_grant_privilege.target) {
        Some(i) => {
            let mut privilege = grants[i].clone();
            revoke_privilege_inner(&mut privilege, revoke_grant_privilege, revoke_grant_option);
            let emptied = privilege.privilege_with_opts.is_empty();
            proof {
                lemma_holds_nothing(privilege);
            }
            grants.set(i, privilege);
            assert(grants_model(grants@) =~= before.update(i as int, privilege@));
            emptied
        },
        None => false,
    }
}

/// The grants that hold a privilege, in their order.
pub fn drop_empty(grants: &Vec<GrantPrivilege>) -> (kept: Vec<GrantPrivilege>)
    ensures
        grants_model(kept@) == grants_model(grants@).filter(
            |grant: GrantModel| !holds_nothing(grant),
        ),
{
    let ghost keep = |grant: GrantModel| !holds_nothing(grant);
    let ghost all = grants_model(grants@);
    let mut kept: Vec<GrantPrivilege> = Vec::new();
    let mut i: usize = 0;
    proof {
        reveal(Seq::filter);
        assert(all.take(0) =~= Seq::<GrantModel>::empty());
        assert(grants_model(kept@) =~= all.take(0).filter(keep));
    }
    while i < grants.len()
        invariant
            i <= grants.len(),
            all == grants_model(grants@),
            keep == |grant: GrantModel| !holds_nothing(grant),
            grants_model(kept@) == all.take(i as int).filter(keep),
        decreases grants.len() - i,
    {
        let ghost before = grants_model(kept@);
        proof {
            reveal(Seq::filter);
            lemma_holds_nothing(grants@[i as int]);
            assert(all.take(i + 1).drop_last() =~= all.take(i as int));
            assert(all.take(i + 1).last() == grants@[i as int]@);
        }
        if !grants[i].privilege_with_opts.is_empty() {
            let copy = grants[i].clone();
            kept.push(copy);
            assert(grants_model(kept@) =~= before.push(grants@[i as int]@));
        }
        i += 1;
    }
    proof {
        assert(all.take(all.len() as int) =~= all);
    }
    kept
}

/// Applies the revocations to the grants of a user.
pub fn revoke_all(
    grants: &mut Vec<GrantPrivilege>,
    revoke_grant_privileges: &[GrantPrivilege],
    revoke_grant_option: bool,
)
    ensures
        grants_model(final(grants)@) == revoked(
            grants_model(old(grants)@),
            revoke_grant_privileges@,
            revoke_grant_option,
        ),
{
    let ghost before = grants_model(grants@);
    let mut empty_privilege = false;
    let mut i: usize = 0;
    while i < revoke_grant_privileges.len()
        invariant
            i <= revoke_grant_privileges.len(),
            grants_model(grants@) == revoked_each(
                before,
                revoke_grant_privileges@.take(i as int),
                revoke_grant_option,
            ),
            empty_privilege == empties_some(
                before,
                revoke_grant_privileges@.take(i as int),
                revoke_grant_option,
            ),
        decreases revoke_grant_privileges.len() - i,
    {
        let emptied = revoke_one(grants, &revoke_grant_privileges[i], revoke_grant_option);
        empty_privilege = empty_privilege || emptied;
        proof {
            let revokes = revoke_grant_privileges@;
            assert(revokes.take(i + 1).drop_last() =~= revokes.take(i as int));
        }
        i += 1;
    }
    proof {
        let revokes = revoke_grant_privileges@;
        assert(revokes.take(revokes.len() as int) =~= revokes);
    }
    if empty_privilege {
        let kept = drop_empty(grants);
        *grants = kept;
    }
}

/// The grants that are not about `target`, in their order.
pub open spec fn released(grants: Seq<GrantModel>, target: Target) -> Seq<GrantModel> {
    grants.filter(|grant: GrantModel| grant.target != Some(target))
}

/// The grants that are not about `target`, in their order.
pub fn release_target(grants: &Vec<GrantPrivilege>, target: &Target) -> (kept: Vec<GrantPrivilege>)
    ensures
        grants_model(kept@) == released(grants_model(grants@), *target),
        kept@.len() <= grants@.len(),
{
    let ghost keep = |grant: GrantModel| grant.target != Some(*target);
    let ghost all = grants_model(grants@);
    let mut kept: Vec<GrantPrivilege> = Vec::new();
    let mut i: usize = 0;
    proof {
        reveal(Seq::filter);
        assert(all.take(0) =~= Seq::<GrantModel>::empty());
        assert(grants_model(kept@) =~= all.take(0).filter(keep));
    }
    while i < grants.len()
        invariant
            i <= grants.len(),
            kept@.len() <= i,
            all == grants_model(grants@),
            keep == |grant: GrantModel| grant.target != Some(*target),
            grants_model(kept@) == all.take(i as int).filter(keep),
        decreases grants.len() - i,
    {
        let ghost before = grants_model(kept@);
        proof {
            reveal(Seq::filter);
            assert(all.take(i + 1).drop_last() =~= all.take(i as int));
            assert(all.take(i + 1).last() == grants@[i as int]@);
        }
        let about = match grants[i].target {
            Some(t) => t == *target,
            None => false,
        };
        if !about {
            let copy = grants[i].clone();
            kept.push(copy);
            assert(grants_model(kept@) =~= before.push(grants@[i as int]@));
        }
        i += 1;
    }
    proof {
        assert(all.take(all.len() as int) =~= all);
    }
    kept
}

} // verus!
