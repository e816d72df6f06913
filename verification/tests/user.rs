use engine_core::user::info::clone_grants;
use engine_core::user::info::drop_empty;
use engine_core::user::info::find_target;
use engine_core::user::info::grant_all;
use engine_core::user::info::grant_one;
use engine_core::user::info::release_target;
use engine_core::user::info::revoke_all;
use engine_core::user::info::revoke_one;
use engine_core::user::info::AuthInfo;
use engine_core::user::info::EncryptionType;
use engine_core::user::info::UserInfo;
use engine_core::user::manager::default_user;
use engine_core::user::manager::UserCore;
use engine_core::user::manager::UserError;
use engine_core::user::manager::DEFAULT_SUPPER_USER;
use engine_core::user::manager::DEFAULT_SUPPER_USER_PASSWORD;
use engine_core::user::privilege::has_privilege;
use engine_core::user::privilege::merge_privilege;
use engine_core::user::privilege::privileges_of;
use engine_core::user::privilege::revoke_privilege_inner;
use engine_core::user::privilege::GrantDatabase;
use engine_core::user::privilege::GrantPrivilege;
use engine_core::user::privilege::GrantSchema;
use engine_core::user::privilege::GrantTable;
use engine_core::user::privilege::Privilege;
use engine_core::user::privilege::PrivilegeWithGrantOption;
use engine_core::user::privilege::Target;
use std::collections::HashMap;

fn make_test_user(name: &str) -> UserInfo {
    UserInfo {
        name: name.to_string(),
        is_supper: false,
        can_create_db: false,
        can_login: false,
        auth_info: None,
        grant_privileges: vec![],
    }
}

fn make_privilege(
    target: Target,
    privileges: &[Privilege],
    with_grant_option: bool,
) -> GrantPrivilege {
    GrantPrivilege {
        target: Some(target),
        privilege_with_opts: privileges
            .iter()
            .map(|&p| PrivilegeWithGrantOption { privilege: p.as_i32(), with_grant_option })
            .collect(),
    }
}

fn table(table_id: u32) -> Target {
    Target::GrantTable(GrantTable { database_id: 0, schema_id: 0, table_id })
}

/// What the manager does around the rules, without the store.
struct Manager {
    core: UserCore,
}

impl Manager {
    fn new(users: Vec<UserInfo>) -> Self {
        let mut core = UserCore::from_users(users);
        if let Some(default_user) = core.init() {
            core.insert_user(default_user);
        }
        Manager { core }
    }

    fn create_user(&mut self, user: &UserInfo) -> Result<(), UserError> {
        self.core.check_create_user(user)?;
        self.core.insert_user(user.clone());
        Ok(())
    }

    fn drop_user(&mut self, user_name: &String) -> Result<(), UserError> {
        self.core.check_drop_user(user_name)?;
        self.core.remove_user(user_name);
        Ok(())
    }

    fn grant_privilege(
        &mut self,
        user_name: &String,
        new_grant_privileges: &[GrantPrivilege],
    ) -> Result<(), UserError> {
        let user = self.core.grant_privilege(user_name, new_grant_privileges)?;
        self.core.insert_user(user);
        Ok(())
    }

    fn revoke_privilege(
        &mut self,
        user_name: &String,
        revoke_grant_privileges: &[GrantPrivilege],
        revoke_grant_option: bool,
    ) -> Result<(), UserError> {
        let user =
            self.core.revoke_privilege(user_name, revoke_grant_privileges, revoke_grant_option)?;
        self.core.insert_user(user);
        Ok(())
    }

    fn release_privileges(&mut self, target: &Target) {
        for user in self.core.release_privileges(target) {
            self.core.insert_user(user);
        }
    }
}

fn sorted(mut opts: Vec<PrivilegeWithGrantOption>) -> Vec<(i32, bool)> {
    opts.sort_by_key(|po| po.privilege);
    opts.into_iter().map(|po| (po.privilege, po.with_grant_option)).collect()
}

#[test]
fn test_user_manager() {
    let mut user_manager = Manager::new(vec![]);
    let test_user = "test_user";
    user_manager.create_user(&make_test_user(test_user)).unwrap();
    assert!(user_manager.create_user(&make_test_user(DEFAULT_SUPPER_USER)).is_err());

    let users = user_manager.core.list_users();
    assert_eq!(users.len(), 2);

    let target = Target::GrantTable(GrantTable { database_id: 0, schema_id: 0, table_id: 0 });
    // Grant Select/Insert without grant option.
    user_manager
        .grant_privilege(
            &test_user.to_string(),
            &[make_privilege(target.clone(), &[Privilege::Select, Privilege::Insert], false)],
        )
        .unwrap();
    let user = user_manager.core.get_user(&test_user.to_string()).unwrap();
    assert_eq!(user.grant_privileges.len(), 1);
    assert_eq!(user.grant_privileges[0].target, Some(target.clone()));
    assert_eq!(user.grant_privileges[0].privilege_with_opts.len(), 2);
    assert!(user.grant_privileges[0].privilege_with_opts.iter().all(|p| !p.with_grant_option));

    // Grant Select/Insert with grant option.
    user_manager
        .grant_privilege(
            &test_user.to_string(),
            &[make_privilege(target.clone(), &[Privilege::Select, Privilege::Insert], true)],
        )
        .unwrap();
    let user = user_manager.core.get_user(&test_user.to_string()).unwrap();
    assert_eq!(user.grant_privileges.len(), 1);
    assert_eq!(user.grant_privileges[0].target, Some(target.clone()));
    assert_eq!(user.grant_privileges[0].privilege_with_opts.len(), 2);
    assert!(user.grant_privileges[0].privilege_with_opts.iter().all(|p| p.with_grant_option));

    // Grant Select/Update/Delete with grant option, while Select is duplicated.
    user_manager
        .grant_privilege(
            &test_user.to_string(),
            &[make_privilege(
                target.clone(),
                &[Privilege::Select, Privilege::Update, Privilege::Delete],
                true,
            )],
        )
        .unwrap();
    let user = user_manager.core.get_user(&test_user.to_string()).unwrap();
    assert_eq!(user.grant_privileges.len(), 1);
    assert_eq!(user.grant_privileges[0].target, Some(target.clone()));
    assert_eq!(user.grant_privileges[0].privilege_with_opts.len(), 4);
    assert!(user.grant_privileges[0].privilege_with_opts.iter().all(|p| p.with_grant_option));

    // Revoke Select/Update/Delete/Insert with grant option.
    user_manager
        .revoke_privilege(
            &test_user.to_string(),
            &[make_privilege(
                target.clone(),
                &[Privilege::Select, Privilege::Insert, Privilege::Delete, Privilege::Update],
                false,
            )],
            true,
        )
        .unwrap();
    let user = user_manager.core.get_user(&test_user.to_string()).unwrap();
    assert_eq!(user.grant_privileges[0].privilege_with_opts.len(), 4);
    assert!(user.grant_privileges[0].privilege_with_opts.iter().all(|p| !p.with_grant_option));

    // Revoke Select/Delete/Insert.
    user_manager
        .revoke_privilege(
            &test_user.to_string(),
            &[make_privilege(
                target.clone(),
                &[Privilege::Select, Privilege::Insert, Privilege::Delete],
                false,
            )],
            false,
        )
        .unwrap();
    let user = user_manager.core.get_user(&test_user.to_string()).unwrap();
    assert_eq!(user.grant_privileges.len(), 1);
    assert_eq!(user.grant_privileges[0].privilege_with_opts.len(), 1);

    // Release all privileges with target.
    user_manager.release_privileges(&target);
    let user = user_manager.core.get_user(&test_user.to_string()).unwrap();
    assert!(user.grant_privileges.is_empty());
}

#[test]
fn default_super_user_is_there_from_the_start() {
    let manager = Manager::new(vec![]);
    let root = manager.core.get_user(&DEFAULT_SUPPER_USER.to_string()).unwrap();
    assert_eq!(root, default_user());
    assert_eq!(root.name, "root");
    assert!(root.is_supper);
    assert!(root.can_create_db);
    assert!(root.can_login);
    assert_eq!(
        root.auth_info,
        Some(AuthInfo {
            encryption_type: EncryptionType::Plaintext.as_i32(),
            encrypted_value: DEFAULT_SUPPER_USER_PASSWORD.as_bytes().to_vec(),
        })
    );
    assert!(root.grant_privileges.is_empty());
    assert_eq!(manager.core.init(), None);
    assert_eq!(UserCore::new().init(), Some(default_user()));
}

#[test]
fn default_super_user_that_is_stored_is_kept() {
    let mut stored = default_user();
    stored.can_login = false;
    let manager = Manager::new(vec![stored.clone()]);
    assert_eq!(manager.core.get_user(&"root".to_string()), Ok(stored));
    assert_eq!(manager.core.list_users().len(), 1);
}

#[test]
fn later_of_two_stored_users_with_one_name_stays() {
    let mut second = make_test_user("twice");
    second.can_login = true;
    let core = UserCore::from_users(vec![make_test_user("twice"), make_test_user("once"), second.clone()]);
    assert_eq!(core.list_users().len(), 2);
    assert_eq!(core.get_user(&"twice".to_string()), Ok(second));
    assert!(core.contains_user(&"once".to_string()));
    assert!(!core.contains_user(&"never".to_string()));
}

#[test]
fn numbers_of_privileges_and_encryption_types() {
    assert_eq!(Privilege::Unknown.as_i32(), 0);
    assert_eq!(Privilege::Select.as_i32(), 1);
    assert_eq!(Privilege::Insert.as_i32(), 2);
    assert_eq!(Privilege::Update.as_i32(), 3);
    assert_eq!(Privilege::Delete.as_i32(), 4);
    assert_eq!(Privilege::Create.as_i32(), 5);
    assert_eq!(Privilege::Connect.as_i32(), 6);
    assert_eq!(Privilege::All.as_i32(), 20);
    assert_eq!(EncryptionType::Unknown.as_i32(), 0);
    assert_eq!(EncryptionType::Plaintext.as_i32(), 1);
    assert_eq!(EncryptionType::Sha256.as_i32(), 2);
    assert_eq!(EncryptionType::Md5.as_i32(), 3);
}

#[test]
fn create_user_refuses_a_name_that_is_taken() {
    let mut manager = Manager::new(vec![]);
    assert_eq!(manager.create_user(&make_test_user("a")), Ok(()));
    assert_eq!(manager.create_user(&make_test_user("a")), Err(UserError::UserAlreadyExists));
    assert_eq!(manager.create_user(&make_test_user("b")), Ok(()));
    let mut names: Vec<String> = manager.core.list_users().into_iter().map(|u| u.name).collect();
    names.sort();
    assert_eq!(names, vec!["a", "b", "root"]);
}

#[test]
fn get_user_of_an_unknown_name_fails() {
    let manager = Manager::new(vec![make_test_user("a")]);
    assert_eq!(manager.core.get_user(&"a".to_string()), Ok(make_test_user("a")));
    assert_eq!(manager.core.get_user(&"b".to_string()), Err(UserError::UserNotFound));
}

#[test]
fn drop_user_checks_in_order() {
    let mut holder = make_test_user("holder");
    holder.grant_privileges = vec![make_privilege(table(1), &[Privilege::Select], false)];
    let mut root_with_grants = default_user();
    root_with_grants.grant_privileges = vec![make_privilege(table(1), &[Privilege::Select], false)];
    let mut manager = Manager::new(vec![holder, make_test_user("plain"), root_with_grants]);
    let name = |s: &str| s.to_string();
    assert_eq!(manager.drop_user(&name("nobody")), Err(UserError::UserNotFound));
    assert_eq!(manager.drop_user(&name("root")), Err(UserError::CannotDropDefaultSuperUser));
    assert_eq!(manager.drop_user(&name("holder")), Err(UserError::CannotDropUserWithPrivileges));
    assert_eq!(manager.core.list_users().len(), 3);
    assert_eq!(manager.drop_user(&name("plain")), Ok(()));
    assert_eq!(manager.core.list_users().len(), 2);
    assert_eq!(manager.drop_user(&name("plain")), Err(UserError::UserNotFound));
    manager.core.remove_user(&name("nobody"));
    assert_eq!(manager.core.list_users().len(), 2);
}

#[test]
fn super_user_is_neither_granted_nor_revoked() {
    let mut manager = Manager::new(vec![]);
    let root = "root".to_string();
    let grant = [make_privilege(table(1), &[Privilege::Select], false)];
    assert_eq!(manager.grant_privilege(&root, &grant), Err(UserError::CannotGrantToSuperUser));
    assert_eq!(
        manager.revoke_privilege(&root, &grant, false),
        Err(UserError::CannotRevokeFromSuperUser)
    );
    let nobody = "nobody".to_string();
    assert_eq!(manager.grant_privilege(&nobody, &grant), Err(UserError::UserNotFound));
    assert_eq!(manager.revoke_privilege(&nobody, &grant, true), Err(UserError::UserNotFound));
}

#[test]
fn merge_adds_privileges_and_keeps_the_right_to_pass_on() {
    let mut origin = GrantPrivilege {
        target: Some(table(1)),
        privilege_with_opts: vec![
            PrivilegeWithGrantOption { privilege: 1, with_grant_option: true },
            PrivilegeWithGrantOption { privilege: 2, with_grant_option: false },
        ],
    };
    let new = GrantPrivilege {
        target: Some(table(1)),
        privilege_with_opts: vec![
            PrivilegeWithGrantOption { privilege: 1, with_grant_option: false },
            PrivilegeWithGrantOption { privilege: 2, with_grant_option: true },
            PrivilegeWithGrantOption { privilege: 3, with_grant_option: false },
        ],
    };
    merge_privilege(&mut origin, &new);
    assert_eq!(origin.target, Some(table(1)));
    assert_eq!(sorted(origin.privilege_with_opts), vec![(1, true), (2, true), (3, false)]);
}

#[test]
fn merge_counts_the_later_of_two_entries_for_one_privilege() {
    let mut origin = GrantPrivilege {
        target: None,
        privilege_with_opts: vec![
            PrivilegeWithGrantOption { privilege: 4, with_grant_option: true },
            PrivilegeWithGrantOption { privilege: 4, with_grant_option: false },
        ],
    };
    let new = GrantPrivilege {
        target: None,
        privilege_with_opts: vec![
            PrivilegeWithGrantOption { privilege: 5, with_grant_option: false },
            PrivilegeWithGrantOption { privilege: 5, with_grant_option: true },
            PrivilegeWithGrantOption { privilege: 5, with_grant_option: false },
        ],
    };
    merge_privilege(&mut origin, &new);
    assert_eq!(sorted(origin.privilege_with_opts), vec![(4, false), (5, true)]);
}

#[test]
fn privileges_of_a_map_come_each_once() {
    let mut map = HashMap::new();
    map.insert(3, true);
    map.insert(1, false);
    map.insert(3, false);
    assert_eq!(sorted(privileges_of(&map)), vec![(1, false), (3, false)]);
    assert!(privileges_of(&HashMap::new()).is_empty());
}

#[test]
fn has_privilege_looks_at_every_entry() {
    let opts = vec![
        PrivilegeWithGrantOption { privilege: 1, with_grant_option: true },
        PrivilegeWithGrantOption { privilege: 7, with_grant_option: false },
    ];
    assert!(has_privilege(&opts, 1));
    assert!(has_privilege(&opts, 7));
    assert!(!has_privilege(&opts, 2));
    assert!(!has_privilege(&vec![], 1));
}

#[test]
fn revoke_inner_takes_the_right_to_pass_on() {
    let mut origin = make_privilege(table(1), &[Privilege::Select, Privilege::Insert, Privilege::Update], true);
    let revoke = make_privilege(table(1), &[Privilege::Insert, Privilege::Delete], false);
    revoke_privilege_inner(&mut origin, &revoke, true);
    assert_eq!(
        origin.privilege_with_opts,
        vec![
            PrivilegeWithGrantOption { privilege: 1, with_grant_option: true },
            PrivilegeWithGrantOption { privilege: 2, with_grant_option: false },
            PrivilegeWithGrantOption { privilege: 3, with_grant_option: true },
        ]
    );
}

#[test]
fn revoke_inner_takes_the_privileges() {
    let mut origin = make_privilege(table(1), &[Privilege::Select, Privilege::Insert, Privilege::Update], true);
    let revoke = make_privilege(table(1), &[Privilege::Insert, Privilege::Delete], true);
    revoke_privilege_inner(&mut origin, &revoke, false);
    assert_eq!(
        origin.privilege_with_opts,
        vec![
            PrivilegeWithGrantOption { privilege: 1, with_grant_option: true },
            PrivilegeWithGrantOption { privilege: 3, with_grant_option: true },
        ]
    );
    assert_eq!(origin.target, Some(table(1)));
}

#[test]
fn grant_merges_into_the_first_grant_about_the_target() {
    let mut grants = vec![
        make_privilege(table(1), &[Privilege::Select], false),
        make_privilege(table(2), &[Privilege::Select], false),
        make_privilege(table(1), &[Privilege::Delete], false),
    ];
    assert_eq!(find_target(&grants, &Some(table(1))), Some(0));
    assert_eq!(find_target(&grants, &Some(table(2))), Some(1));
    assert_eq!(find_target(&grants, &Some(table(3))), None);
    assert_eq!(find_target(&grants, &None), None);
    grant_one(&mut grants, &make_privilege(table(1), &[Privilege::Insert], true));
    assert_eq!(grants.len(), 3);
    assert_eq!(sorted(grants[0].privilege_with_opts.clone()), vec![(1, false), (2, true)]);
    assert_eq!(sorted(grants[2].privilege_with_opts.clone()), vec![(4, false)]);
    grant_one(&mut grants, &make_privilege(table(3), &[Privilege::Insert], true));
    assert_eq!(grants.len(), 4);
    assert_eq!(grants[3], make_privilege(table(3), &[Privilege::Insert], true));
}

#[test]
fn grant_all_gives_each_in_turn() {
    let mut grants = vec![];
    let database = Target::GrantDatabase(GrantDatabase { database_id: 9 });
    grant_all(
        &mut grants,
        &[
            make_privilege(table(1), &[Privilege::Select], false),
            make_privilege(database, &[Privilege::Connect], false),
            make_privilege(table(1), &[Privilege::Select, Privilege::Update], true),
        ],
    );
    assert_eq!(grants.len(), 2);
    assert_eq!(grants[0].target, Some(table(1)));
    assert_eq!(sorted(grants[0].privilege_with_opts.clone()), vec![(1, true), (3, true)]);
    assert_eq!(grants[1], make_privilege(database, &[Privilege::Connect], false));
    assert_eq!(clone_grants(&grants), grants);
}

#[test]
fn revoke_one_tells_whether_the_grant_is_left_empty() {
    let mut grants = vec![
        make_privilege(table(1), &[Privilege::Select, Privilege::Insert], false),
        make_privilege(table(2), &[Privilege::Select], false),
    ];
    assert!(!revoke_one(&mut grants, &make_privilege(table(1), &[Privilege::Select], false), false));
    assert!(!revoke_one(&mut grants, &make_privilege(table(3), &[Privilege::Select], false), false));
    assert!(!revoke_one(&mut grants, &make_privilege(table(2), &[Privilege::Select], false), true));
    assert!(revoke_one(&mut grants, &make_privilege(table(2), &[Privilege::Select], false), false));
    assert_eq!(grants.len(), 2);
    assert_eq!(grants[0], make_privilege(table(1), &[Privilege::Insert], false));
    assert!(grants[1].privilege_with_opts.is_empty());
    assert_eq!(drop_empty(&grants), vec![make_privilege(table(1), &[Privilege::Insert], false)]);
}

#[test]
fn revoke_drops_every_empty_grant_once_one_is_emptied() {
    let schema = Target::GrantSchema(GrantSchema { database_id: 1, schema_id: 2 });
    let start = || {
        vec![
            make_privilege(schema, &[], false),
            make_privilege(table(1), &[Privilege::Select], true),
            make_privilege(table(2), &[Privilege::Select, Privilege::Insert], true),
        ]
    };
    // Nothing is emptied: the grant that was empty before stays.
    let mut grants = start();
    revoke_all(&mut grants, &[make_privilege(table(2), &[Privilege::Select], false)], false);
    assert_eq!(
        grants,
        vec![
            make_privilege(schema, &[], false),
            make_privilege(table(1), &[Privilege::Select], true),
            make_privilege(table(2), &[Privilege::Insert], true),
        ]
    );
    // One is emptied: it leaves, and so does the one that was empty before.
    let mut grants = start();
    revoke_all(
        &mut grants,
        &[
            make_privilege(table(1), &[Privilege::Select], false),
            make_privilege(table(2), &[Privilege::Insert], false),
        ],
        false,
    );
    assert_eq!(grants, vec![make_privilege(table(2), &[Privilege::Select], true)]);
    // Taking only the right to pass on empties nothing.
    let mut grants = start();
    revoke_all(&mut grants, &[make_privilege(table(1), &[Privilege::Select], false)], true);
    assert_eq!(grants.len(), 3);
    assert_eq!(grants[1], make_privilege(table(1), &[Privilege::Select], false));
}

#[test]
fn release_takes_the_grants_about_the_target_from_every_holder() {
    let mut a = make_test_user("a");
    a.grant_privileges = vec![
        make_privilege(table(1), &[Privilege::Select], false),
        make_privilege(table(2), &[Privilege::Select], false),
        make_privilege(table(1), &[Privilege::Insert], false),
    ];
    let mut b = make_test_user("b");
    b.grant_privileges = vec![make_privilege(table(2), &[Privilege::Select], false)];
    let mut c = make_test_user("c");
    c.grant_privileges = vec![
        GrantPrivilege { target: None, privilege_with_opts: vec![] },
        make_privilege(table(1), &[Privilege::Delete], true),
    ];
    let mut manager = Manager::new(vec![a, b.clone(), c]);
    assert_eq!(
        release_target(&b.grant_privileges, &table(1)),
        vec![make_privilege(table(2), &[Privilege::Select], false)]
    );
    let mut changed: Vec<String> =
        manager.core.release_privileges(&table(1)).into_iter().map(|u| u.name).collect();
    changed.sort();
    assert_eq!(changed, vec!["a", "c"]);
    manager.release_privileges(&table(1));
    let a = manager.core.get_user(&"a".to_string()).unwrap();
    assert_eq!(a.grant_privileges, vec![make_privilege(table(2), &[Privilege::Select], false)]);
    assert_eq!(manager.core.get_user(&"b".to_string()), Ok(b));
    let c = manager.core.get_user(&"c".to_string()).unwrap();
    assert_eq!(c.grant_privileges, vec![GrantPrivilege { target: None, privilege_with_opts: vec![] }]);
    assert!(manager.core.release_privileges(&table(1)).is_empty());
}
