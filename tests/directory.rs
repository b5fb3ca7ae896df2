use ecoproof::users::{Role, User, UserDirectory, UserError};

fn add(dir: &mut UserDirectory, id: &str) -> bool {
    dir.create_tg_user(
        id.to_string(),
        format!("{}-first", id),
        "Last".to_string(),
        format!("{}_name", id),
        "en".to_string(),
        false,
        "pic".to_string(),
    )
}

#[test]
fn create_then_update_profile_keeps_balance_and_wallet() {
    let mut dir = UserDirectory::new();
    assert!(add(&mut dir, "a"));
    dir.update_wallet_address(&"a".to_string(), "w".to_string()).unwrap();
    dir.credit(&"a".to_string(), 7);
    assert!(!dir.create_tg_user(
        "a".to_string(),
        "New".to_string(),
        "Name".to_string(),
        "nn".to_string(),
        "fr".to_string(),
        true,
        "p2".to_string(),
    ));
    let u = dir.get_tg_user(&"a".to_string()).unwrap();
    assert_eq!(u.first_name, Some("New".to_string()));
    assert_eq!(u.language_code, Some("fr".to_string()));
    assert!(u.is_bot);
    assert_eq!(u.balance, 7);
    assert_eq!(u.wallet_address, Some("w".to_string()));
    assert_eq!(dir.get_all_users().len(), 1);
}

#[test]
fn wallet_update_of_unknown_user() {
    let mut dir = UserDirectory::new();
    assert_eq!(
        dir.update_wallet_address(&"ghost".to_string(), "w".to_string()),
        Err(UserError::NotFound)
    );
    assert_eq!(dir.get_balance(&"ghost".to_string()), 0);
    assert_eq!(dir.get_user_role(&"ghost".to_string()), Err(UserError::NotFound));
}

#[test]
fn first_admin_bootstraps_then_only_admins_change_roles() {
    let mut dir = UserDirectory::new();
    add(&mut dir, "a");
    add(&mut dir, "b");
    add(&mut dir, "c");
    assert_eq!(dir.get_user_role(&"a".to_string()), Ok(Role::User));
    assert_eq!(dir.update_user_role(&"b".to_string(), &"a".to_string(), Role::Admin), Ok(()));
    assert_eq!(dir.get_user_role(&"a".to_string()), Ok(Role::Admin));
    assert_eq!(
        dir.update_user_role(&"b".to_string(), &"c".to_string(), Role::Moderator),
        Err(UserError::Forbidden)
    );
    assert_eq!(dir.update_user_role(&"a".to_string(), &"c".to_string(), Role::Moderator), Ok(()));
    assert_eq!(dir.get_user_role(&"c".to_string()), Ok(Role::Moderator));
}

#[test]
fn role_change_needs_known_caller_and_target() {
    let mut dir = UserDirectory::new();
    add(&mut dir, "a");
    assert_eq!(
        dir.update_user_role(&"x".to_string(), &"a".to_string(), Role::Admin),
        Err(UserError::CallerNotFound)
    );
    assert_eq!(
        dir.update_user_role(&"a".to_string(), &"x".to_string(), Role::Admin),
        Err(UserError::TargetNotFound)
    );
}

#[test]
fn default_role_is_user() {
    assert_eq!(Role::default(), Role::User);
}

#[test]
fn credit_saturates() {
    let mut dir = UserDirectory::new();
    assert_eq!(dir.credit(&"a".to_string(), u64::MAX - 1), u64::MAX - 1);
    assert_eq!(dir.credit(&"a".to_string(), 5), u64::MAX);
}

fn record(id: &str) -> User {
    User {
        user_id: id.to_string(),
        balance: 3,
        first_name: None,
        last_name: None,
        username: None,
        language_code: None,
        is_bot: false,
        profile_picture_url: None,
        wallet_address: None,
        role: Role::Admin,
    }
}

#[test]
fn restore_users_takes_keys_as_ids() {
    let dir = UserDirectory::from_backup(vec![
        ("k1".to_string(), record("")),
        ("k2".to_string(), record("k2")),
    ])
    .unwrap();
    let u = dir.get_tg_user(&"k1".to_string()).unwrap();
    assert_eq!(u.user_id, "k1");
    assert_eq!(u.balance, 3);
    assert_eq!(dir.get_user_role(&"k2".to_string()), Ok(Role::Admin));
}

#[test]
fn restore_users_rejects_duplicate_keys() {
    let r = UserDirectory::from_backup(vec![
        ("k1".to_string(), record("k1")),
        ("k2".to_string(), record("k2")),
        ("k1".to_string(), record("k1")),
    ]);
    assert!(matches!(r, Err(ecoproof::submissions::RestoreError::DuplicateKey(2))));
}
