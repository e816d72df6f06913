//! Privileges on one target, and how they are merged and revoked.

use std::collections::HashMap;
use vstd::prelude::*;
use vstd::std_specs::hash::spec_hash_map_iter;
use vstd::std_specs::iter::IteratorSpec;

verus! {

/// What a grant can be about.
#[derive(Clone, Copy, Debug, PartialEq, Eq, Structural)]
pub struct GrantDatabase {
    pub database_id: u32,
}

#[derive(Clone, Copy, Debug, PartialEq, Eq, Structural)]
pub struct GrantSchema {
    pub database_id: u32,
    pub schema_id: u32,
}

#[derive(Clone, Copy, Debug, PartialEq, Eq, Structural)]
pub struct GrantTable {
    pub database_id: u32,
    pub schema_id: u32,
    pub table_id: u32,
}

#[derive(Clone, Copy, Debug, PartialEq, Eq, Structural)]
pub struct GrantSource {
    pub database_id: u32,
    pub schema_id: u32,
    pub source_id: u32,
}

#[derive(Clone, Copy, Debug, PartialEq, Eq, Structural)]
pub struct GrantAllTables {
    pub database_id: u32,
    pub schema_id: u32,
}

#[derive(Clone, Copy, Debug, PartialEq, Eq, Structural)]
pub struct GrantAllSources {
    pub database_id: u32,
    pub schema_id: u32,
}

/// The object that a grant is about.
#[derive(Clone, Copy, Debug, PartialEq, Eq, Structural)]
pub enum Target {
    GrantDatabase(GrantDatabase),
    GrantSchema(GrantSchema),
    GrantTable(GrantTable),
    GrantSource(GrantSource),
    GrantAllTables(GrantAllTables),
    GrantAllSources(GrantAllSources),
}

/// What a user may be allowed to do.
#[derive(Clone, Copy, Debug, PartialEq, Eq, Structural)]
pub enum Privilege {
    Unknown,
    Select,
    Insert,
    Update,
    Delete,
    Create,
    Connect,
    All,
}

impl Privilege {
    /// The number under which the privilege is kept.
    pub open spec fn number(self) -> i32 {
        match self {
            Privilege::Unknown => 0,
            Privilege::Select => 1,
            Privilege::Insert => 2,
            Privilege::Update => 3,
            Privilege::Delete => 4,
            Privilege::Create => 5,
            Privilege::Connect => 6,
            Privilege::All => 20,
        }
    }

    pub fn as_i32(self) -> (n: i32)
        ensures
            n == self.number(),
    {
        match self {
            Privilege::Unknown => 0,
            Privilege::Select => 1,
            Privilege::Insert => 2,
            Privilege::Update => 3,
            Privilege::Delete => 4,
            Privilege::Create => 5,
            Privilege::Connect => 6,
            Privilege::All => 20,
        }
    }
}

/// One privilege, and whether its holder may pass it on.
#[derive(Clone, Copy, Debug, PartialEq, Eq, Structural)]
pub struct PrivilegeWithGrantOption {
    pub privilege: i32,
    pub with_grant_option: bool,
}

/// The privileges that a user holds on one target.
#[derive(Debug, PartialEq, Eq)]
pub struct GrantPrivilege {
    pub target: Option<Target>,
    pub privilege_with_opts: Vec<PrivilegeWithGrantOption>,
}

/// What a grant says: for each privilege that it holds, whether the holder
/// may pass it on. Where the list names a privilege twice, the later entry
/// counts.
pub struct GrantModel {
    pub target: Option<Target>,
    pub options: Map<i32, bool>,
}

/// For each privilege in the list, whether it may be passed on; of two
/// entries for one privilege the later counts.
pub open spec fn options_map(opts: Seq<PrivilegeWithGrantOption>) -> Map<i32, bool>
    decreases opts.len(),
{
    if opts.len() == 0 {
        Map::empty()
    } else {
        options_map(opts.drop_last()).insert(opts.last().privilege, opts.last().with_grant_option)
    }
}

/// The privileges of `origin` with those of `granted` added: one that was
/// held may be passed on if it might before or is granted so now.
pub open spec fn merged_options(
    origin: Map<i32, bool>,
    granted: Seq<PrivilegeWithGrantOption>,
) -> Map<i32, bool>
    decreases granted.len(),
{
    if granted.len() == 0 {
        origin
    } else {
        let before = merged_options(origin, granted.drop_last());
        let last = granted.last();
        if before.contains_key(last.privilege) {
            before.insert(last.privilege, before[last.privilege] || last.with_grant_option)
        } else {
            before.insert(last.privilege, last.with_grant_option)
        }
    }
}

/// Whether the list names `privilege`.
pub open spec fn names_privilege(opts: Seq<PrivilegeWithGrantOption>, privilege: i32) -> bool {
    exists|i: int| 0 <= i < opts.len() && (#[trigger] opts[i]).privilege == privilege
}

/// The privileges of `origin` after those that `revoked` names are taken
/// away: altogether, or only the right to pass them on.
pub open spec fn revoked_options(
    origin: Map<i32, bool>,
    revoked: Seq<PrivilegeWithGrantOption>,
    revoke_grant_option: bool,
) -> Map<i32, bool> {
    if revoke_grant_option {
        Map::new(
            |privilege: i32| origin.contains_key(privilege),
            |privilege: i32| origin[privilege] && !names_privilege(revoked, privilege),
        )
    } else {
        Map::new(
            |privilege: i32| origin.contains_key(privilege) && !names_privilege(revoked, privilege),
            |privilege: i32| origin[privilege],
        )
    }
}

/// Whether no privilege is named twice.
pub open spec fn distinct_privileges(opts: Seq<PrivilegeWithGrantOption>) -> bool {
    forall|i: int, j: int|
        0 <= i < j < opts.len() ==> (#[trigger] opts[i]).privilege != (#[trigger] opts[j]).privilege
}

impl View for GrantPrivilege {
    type V = GrantModel;

    open spec fn view(&self) -> GrantModel {
        GrantModel { target: self.target, options: options_map(self.privilege_with_opts@) }
    }
}

/// Where no privilege is named twice, each entry of the list is what the
/// list says of its privilege, and the list says nothing of others.
pub proof fn lemma_options_map_distinct(opts: Seq<PrivilegeWithGrantOption>)
    requires
        distinct_privileges(opts),
    ensures
        forall|i: int|
            0 <= i < opts.len() ==> options_map(opts).contains_key((#[trigger] opts[i]).privilege)
                && options_map(opts)[opts[i].privilege] == opts[i].with_grant_option,
        forall|privilege: i32| #[trigger]
            options_map(opts).contains_key(privilege) ==> names_privilege(opts, privilege),
    decreases opts.len(),
{
    if opts.len() > 0 {
        let front = opts.drop_last();
        lemma_options_map_distinct(front);
        assert forall|privilege: i32| #[trigger]
            options_map(opts).contains_key(privilege) implies names_privilege(
            opts,
            privilege,
        ) by {
            if privilege == opts.last().privilege {
                assert(opts[opts.len() - 1].privilege == privilege);
            } else {
                assert(options_map(front).contains_key(privilege));
                assert(names_privilege(front, privilege));
                let i = choose|i: int| 0 <= i < front.len() && (#[trigger] front[i]).privilege
                    == privilege;
                assert(opts[i].privilege == privilege);
            }
        }
        assert forall|i: int| 0 <= i < opts.len() implies options_map(opts).contains_key(
            (#[trigger] opts[i]).privilege,
        ) && options_map(opts)[opts[i].privilege] == opts[i].with_grant_option by {
            if i < opts.len() - 1 {
                assert(front[i] == opts[i]);
            }
        }
    }
}

/// Adds the privileges of `new_privilege` to those of `origin_privilege`,
/// which is about the same target. Afterwards no privilege is named twice;
/// in which order they stand is left open.
pub fn merge_privilege(origin_privilege: &mut GrantPrivilege, new_privilege: &GrantPrivilege)
    requires
        old(origin_privilege).target == new_privilege.target,
    ensures
        final(origin_privilege).target == old(origin_privilege).target,
        final(origin_privilege)@.options == merged_options(
            old(origin_privilege)@.options,
            new_privilege.privilege_with_opts@,
        ),
        distinct_privileges(final(origin_privilege).privilege_with_opts@),
{
    broadcast use vstd::std_specs::hash::group_hash_axioms;

    let mut privilege_map: HashMap<i32, bool> = HashMap::new();
    let mut i: usize = 0;
    while i < origin_privilege.privilege_with_opts.len()
        invariant
            i <= origin_privilege.privilege_with_opts.len(),
            *origin_privilege == *old(origin_privilege),
            privilege_map@ == options_map(origin_privilege.privilege_with_opts@.take(i as int)),
        decreases origin_privilege.privilege_with_opts.len() - i,
    {
        let po = origin_privilege.privilege_with_opts[i];
        privilege_map.insert(po.privilege, po.with_grant_option);
        proof {
            let opts = origin_privilege.privilege_with_opts@;
            assert(opts.take(i + 1).drop_last() =~= opts.take(i as int));
        }
        i += 1;
    }
    proof {
        let opts = origin_privilege.privilege_with_opts@;
        assert(opts.take(opts.len() as int) =~= opts);
    }
    let ghost origin_options = privilege_map@;
    let mut j: usize = 0;
    while j < new_privilege.privilege_with_opts.len()
        invariant
            j <= new_privilege.privilege_with_opts.len(),
            privilege_map@ == merged_options(
                origin_options,
                new_privilege.privilege_with_opts@.take(j as int),
            ),
        decreases new_privilege.privilege_with_opts.len() - j,
    {
        let npo = new_privilege.privilege_with_opts[j];
        let with_grant_option = match privilege_map.get(&npo.privilege) {
            Some(po) => *po || npo.with_grant_option,
            None => npo.with_grant_option,
        };
        privilege_map.insert(npo.privilege, with_grant_option);
        proof {
            let opts = new_privilege.privilege_with_opts@;
            assert(opts.take(j + 1).drop_last() =~= opts.take(j as int));
        }
        j += 1;
    }
    proof {
        let opts = new_privilege.privilege_with_opts@;
        assert(opts.take(opts.len() as int) =~= opts);
    }
    let out = privileges_of(&privilege_map);
    origin_privilege.privilege_with_opts = out;
}

/// The privileges that the map holds as a list, each once; in which order
/// is left open.
pub fn privileges_of(privilege_map: &HashMap<i32, bool>) -> (out: Vec<PrivilegeWithGrantOption>)
    ensures
        options_map(out@) == privilege_map@,
        distinct_privileges(out@),
        out@.len() == privilege_map@.len(),
{
    broadcast use vstd::std_specs::hash::group_hash_axioms;

    let ghost entries = spec_hash_map_iter(privilege_map).remaining();
    let mut out: Vec<PrivilegeWithGrantOption> = Vec::new();
    for entry in it: privilege_map.iter()
        invariant
            it.seq() == entries,
            out@.len() == it.index(),
            forall|k: int|
                0 <= k < out@.len() ==> (#[trigger] out@[k]).privilege == *entries[k].0
                    && out@[k].with_grant_option == *entries[k].1,
    {
        let (privilege, with_grant_option) = entry;
        out.push(
            PrivilegeWithGrantOption {
                privilege: *privilege,
                with_grant_option: *with_grant_option,
            },
        );
    }
    proof {
        assert(out@.len() == entries.len());
        assert(entries.no_duplicates());
        assert forall|a: int, b: int| 0 <= a < b < out@.len() implies (#[trigger] out@[a]).privilege
            != (#[trigger] out@[b]).privilege by {
            if out@[a].privilege == out@[b].privilege {
                assert(privilege_map@[*entries[a].0] == *entries[a].1);
                assert(privilege_map@[*entries[b].0] == *entries[b].1);
                assert(entries[a] == entries[b]);
            }
        }
        lemma_options_map_distinct(out@);
        assert forall|privilege: i32| #[trigger]
            privilege_map@.contains_key(privilege) implies options_map(out@).contains_key(
            privilege,
        ) by {
            let pair = (&privilege, &privilege_map@[privilege]);
            assert(entries.contains(pair));
            let k = choose|k: int| 0 <= k < entries.len() && entries[k] == pair;
            assert(out@[k].privilege == privilege);
        }
        assert forall|privilege: i32| #[trigger]
            options_map(out@).contains_key(privilege) implies privilege_map@.contains_key(
            privilege,
        ) && privilege_map@[privilege] == options_map(out@)[privilege] by {
            let k = choose|k: int| 0 <= k < out@.len() && (#[trigger] out@[k]).privilege
                == privilege;
            assert(privilege_map@.contains_key(*entries[k].0));
        }
        assert(options_map(out@) =~= privilege_map@);
    }
    out
}

impl Clone for GrantPrivilege {
    fn clone(&self) -> (copy: Self)
        ensures
            copy.target == self.target,
            copy.privilege_with_opts@ == self.privilege_with_opts@,
    {
        let privilege_with_opts = self.privilege_with_opts.clone();
        assert(privilege_with_opts@ =~= self.privilege_with_opts@);
        GrantPrivilege { target: self.target, privilege_with_opts }
    }
}

/// Whether the list names `privilege`.
pub fn has_privilege(opts: &Vec<PrivilegeWithGrantOption>, privilege: i32) -> (found: bool)
    ensures
        found == names_privilege(opts@, privilege),
{
    let mut i: usize = 0;
    while i < opts.len()
        invariant
            i <= opts.len(),
            forall|k: int| 0 <= k < i ==> (#[trigger] opts@[k]).privilege != privilege,
        decreases opts.len() - i,
    {
        if opts[i].privilege == privilege {
            return true;
        }
        i += 1;
    }
    false
}

/// One entry after a revocation of the right to pass privileges on: it
/// loses that right where the revocation names its privilege.
pub open spec fn without_grant_option(
    po: PrivilegeWithGrantOption,
    revoked: Seq<PrivilegeWithGrantOption>,
) -> PrivilegeWithGrantOption {
    if names_privilege(revoked, po.privilege) {
        PrivilegeWithGrantOption { privilege: po.privilege, with_grant_option: false }
    } else {
        po
    }
}

/// The list after a revocation: where only the right to pass on is revoked,
/// every entry stays and those that the revocation names lose that right;
/// else the entries that it names leave.
pub open spec fn revoked_list(
    opts: Seq<PrivilegeWithGrantOption>,
    revoked: Seq<PrivilegeWithGrantOption>,
    revoke_grant_option: bool,
) -> Seq<PrivilegeWithGrantOption> {
    if revoke_grant_option {
        opts.map_values(|po: PrivilegeWithGrantOption| without_grant_option(po, revoked))
    } else {
        opts.filter(|po: PrivilegeWithGrantOption| !names_privilege(revoked, po.privilege))
    }
}

/// What the list says after a revocation is what it said before with the
/// revocation applied.
pub proof fn lemma_revoked_list_options(
    opts: Seq<PrivilegeWithGrantOption>,
    revoked: Seq<PrivilegeWithGrantOption>,
    revoke_grant_option: bool,
)
    ensures
        options_map(revoked_list(opts, revoked, revoke_grant_option)) == revoked_options(
            options_map(opts),
            revoked,
            revoke_grant_option,
        ),
    decreases opts.len(),
{
    let after = revoked_list(opts, revoked, revoke_grant_option);
    if opts.len() == 0 {
        if !revoke_grant_option {
            reveal(Seq::filter);
        }
        assert(after =~= Seq::<PrivilegeWithGrantOption>::empty());
        assert(options_map(after) =~= revoked_options(
            options_map(opts),
            revoked,
            revoke_grant_option,
        ));
    } else {
        let front = opts.drop_last();
        let last = opts.last();
        lemma_revoked_list_options(front, revoked, revoke_grant_option);
        let front_after = revoked_list(front, revoked, revoke_grant_option);
        if revoke_grant_option {
            assert(after.drop_last() =~= front_after);
            assert(after.last() == without_grant_option(last, revoked));
        } else {
            reveal(Seq::filter);
            if names_privilege(revoked, last.privilege) {
                assert(after =~= front_after);
            } else {
                assert(after =~= front_after.push(last));
                assert(after.drop_last() =~= front_after);
            }
        }
        assert(options_map(after) =~= revoked_options(
            options_map(opts),
            revoked,
            revoke_grant_option,
        ));
    }
}

/// Takes from `origin_privilege` what `revoke_grant_privilege`, which is
/// about the same target, names: the privileges themselves, or only the
/// right to pass them on.
pub fn revoke_privilege_inner(
    origin_privilege: &mut GrantPrivilege,
    revoke_grant_privilege: &GrantPrivilege,
    revoke_grant_option: bool,
)
    requires
        old(origin_privilege).target == revoke_grant_privilege.target,
    ensures
        final(origin_privilege).target == old(origin_privilege).target,
        final(origin_privilege).privilege_with_opts@ == revoked_list(
            old(origin_privilege).privilege_with_opts@,
            revoke_grant_privilege.privilege_with_opts@,
            revoke_grant_option,
        ),
        final(origin_privilege)@.options == revoked_options(
            old(origin_privilege)@.options,
            revoke_grant_privilege.privilege_with_opts@,
            revoke_grant_option,
        ),
{
    let ghost before = origin_privilege.privilege_with_opts@;
    let ghost revoked = revoke_grant_privilege.privilege_with_opts@;
    let mut kept: Vec<PrivilegeWithGrantOption> = Vec::new();
    let mut i: usize = 0;
    proof {
        if !revoke_grant_option {
            reveal(Seq::filter);
        }
        assert(before.take(0) =~= Seq::<PrivilegeWithGrantOption>::empty());
        assert(revoked_list(before.take(0), revoked, revoke_grant_option) =~= Seq::<
            PrivilegeWithGrantOption,
        >::empty());
    }
    while i < origin_privilege.privilege_with_opts.len()
        invariant
            i <= origin_privilege.privilege_with_opts.len(),
            *origin_privilege == *old(origin_privilege),
            before == origin_privilege.privilege_with_opts@,
            revoked == revoke_grant_privilege.privilege_with_opts@,
            kept@ == revoked_list(before.take(i as int), revoked, revoke_grant_option),
        decreases origin_privilege.privilege_with_opts.len() - i,
    {
        let po = origin_privilege.privilege_with_opts[i];
        let named = has_privilege(&revoke_grant_privilege.privilege_with_opts, po.privilege);
        proof {
            assert(before.take(i + 1).drop_last() =~= before.take(i as int));
            assert(before.take(i + 1).last() == po);
            if revoke_grant_option {
                assert(revoked_list(before.take(i + 1), revoked, true) =~= revoked_list(
                    before.take(i as int),
                    revoked,
                    true,
                ).push(without_grant_option(po, revoked)));
            } else {
                reveal(Seq::filter);
            }
        }
        if revoke_grant_option {
            if named {
                kept.push(
                    PrivilegeWithGrantOption { privilege: po.privilege, with_grant_option: false },
                );
            } else {
                kept.push(po);
            }
        } else if !named {
            kept.push(po);
        }
        i += 1;
    }
    proof {
        assert(before.take(before.len() as int) =~= before);
        lemma_revoked_list_options(before, revoked, revoke_grant_option);
    }
    origin_privilege.privilege_with_opts = kept;
}

} // verus!
