use argon2::password_hash::{PasswordHasher, SaltString};
use argon2::Argon2;
use elowen_api::auth::{
    actor_role_value, broken_hash, check_password, grant_access, lanes_overflow, load_accounts, AccountsSource, AuthMode,
    AuthPermission, AuthProvider, AuthRole, LegacySharedPasswordProvider, LocalAccount,
    LocalAccountConfig,
};
use elowen_api::error::{AppError, ErrorStatus};

fn hash_of(password: &str) -> String {
    let salt = SaltString::encode_b64(b"0123456789abcdef").expect("valid static salt");
    Argon2::default()
        .hash_password(password.as_bytes(), &salt)
        .expect("hash")
        .to_string()
}

fn accounts_in(body: &str) -> AccountsSource {
    let table = body.parse::<toml::Table>().expect("well-formed configuration");
    let accounts = table["accounts"].as_array().expect("a list of accounts");
    AccountsSource::Loaded(
        accounts
            .iter()
            .map(|account| LocalAccountConfig {
                username: account["username"].as_str().expect("username").to_string(),
                display_name: account
                    .get("display_name")
                    .and_then(|value| value.as_str())
                    .map(|value| value.to_string()),
                role: AuthRole::parse(account["role"].as_str().expect("role")).expect("role name"),
                password_hash: account["password_hash"].as_str().expect("hash").to_string(),
                disabled: account
                    .get("disabled")
                    .and_then(|value| value.as_bool())
                    .unwrap_or(false),
            })
            .collect(),
    )
}

fn config(username: &str, display_name: Option<&str>, hash: &str, disabled: bool) -> LocalAccountConfig {
    LocalAccountConfig {
        username: username.to_string(),
        display_name: display_name.map(|value| value.to_string()),
        role: AuthRole::Operator,
        password_hash: hash.to_string(),
        disabled,
    }
}

fn account(username: &str, hash: &str) -> LocalAccount {
    LocalAccount {
        username: username.to_string(),
        display_name: "Shown".to_string(),
        role: AuthRole::Viewer,
        password_hash: hash.to_string(),
        disabled: false,
    }
}

fn local_provider() -> AuthProvider {
    AuthProvider::from_config(Some("accounts.toml".to_string()), None, "Ignored".to_string())
}

fn assert_error(error: AppError, status: ErrorStatus, message: &str) {
    assert_eq!(error.status, status);
    assert_eq!(error.error, message);
    assert_eq!(error.code, None);
}

#[test]
fn auth_role_permissions_are_ordered() {
    assert!(AuthRole::Admin.allows(&AuthRole::Operator));
    assert!(AuthRole::Operator.allows(&AuthRole::Viewer));
    assert!(!AuthRole::Viewer.allows(&AuthRole::Operator));
}

#[test]
fn local_account_provider_authenticates_and_resolves_accounts() {
    let password_hash = hash_of("slice32-admin");
    let body = format!(
        "[[accounts]]\nusername = \"admin\"\ndisplay_name = \"Admin User\"\nrole = \"admin\"\npassword_hash = \"{password_hash}\"\n"
    );

    let provider = AuthProvider::from_config(
        Some("elowen-auth.toml".to_string()),
        None,
        "Ignored".to_string(),
    );
    assert_eq!(provider.mode(), AuthMode::LocalAccounts);

    let actor = provider
        .authenticate(accounts_in(&body), Some("admin"), "slice32-admin")
        .expect("authenticate");
    assert_eq!(actor.username, "admin");
    assert_eq!(actor.display_name, "Admin User");
    assert_eq!(actor.role, AuthRole::Admin);

    let resolved = provider
        .resolve_actor(accounts_in(&body), "admin")
        .expect("resolve actor")
        .expect("actor present");
    assert_eq!(resolved.username, "admin");
}

#[test]
fn ranks_and_permissions_of_the_roles() {
    assert_eq!(AuthRole::Viewer.rank(), 1);
    assert_eq!(AuthRole::Operator.rank(), 2);
    assert_eq!(AuthRole::Admin.rank(), 3);
    assert_eq!(AuthRole::Viewer.permissions(), vec![AuthPermission::View]);
    assert_eq!(
        AuthRole::Operator.permissions(),
        vec![AuthPermission::View, AuthPermission::Operate]
    );
    assert_eq!(
        AuthRole::Admin.permissions(),
        vec![AuthPermission::View, AuthPermission::Operate, AuthPermission::Admin]
    );
}

#[test]
fn role_names_come_back() {
    for role in [AuthRole::Viewer, AuthRole::Operator, AuthRole::Admin] {
        assert_eq!(AuthRole::parse(actor_role_value(&role)), Ok(role));
    }
    assert_eq!(AuthRole::parse("  Operator "), Ok(AuthRole::Operator));
    assert_eq!(AuthRole::parse(" Root"), Err("unsupported auth role `root`".to_string()));
}

#[test]
fn provider_follows_the_configuration() {
    let path = Some("  accounts.toml ".to_string());
    let password = Some("secret".to_string());
    match AuthProvider::from_config(path, password, "Operator".to_string()) {
        AuthProvider::LocalAccounts(provider) => assert_eq!(provider.path, "accounts.toml"),
        other => panic!("unexpected provider {other:?}"),
    }
    match AuthProvider::from_config(Some("  ".to_string()), Some("secret".to_string()), "Op".to_string()) {
        AuthProvider::LegacySharedPassword(provider) => {
            assert_eq!(provider.password, "secret");
            assert_eq!(provider.display_name, "Op");
        }
        other => panic!("unexpected provider {other:?}"),
    }
    let disabled = AuthProvider::from_config(None, Some(String::new()), "Op".to_string());
    assert!(!disabled.enabled());
    assert_eq!(disabled.mode(), AuthMode::Disabled);
    assert!(local_provider().enabled());
}

#[test]
fn disabled_provider_knows_nobody() {
    let provider = AuthProvider::Disabled;
    let error = provider
        .authenticate(AccountsSource::Loaded(Vec::new()), Some("admin"), "secret")
        .expect_err("nobody can sign in");
    assert_error(error, ErrorStatus::Conflict, "web UI authentication is disabled");
    let actor = provider.resolve_actor(AccountsSource::Loaded(Vec::new()), "admin").expect("no fault");
    assert_eq!(actor, None);
}

#[test]
fn shared_password_gives_the_legacy_admin() {
    let provider = LegacySharedPasswordProvider {
        password: "secret".to_string(),
        display_name: "Operator".to_string(),
    };
    let actor = provider.authenticate("secret").expect("right password");
    assert_eq!(actor.username, "legacy-admin");
    assert_eq!(actor.display_name, "Operator");
    assert_eq!(actor.role, AuthRole::Admin);
    assert_eq!(provider.resolve_actor("legacy-admin"), Some(actor));
    assert_eq!(provider.resolve_actor("admin"), None);
    let error = provider.authenticate("Secret").expect_err("wrong password");
    assert_error(error, ErrorStatus::Unauthorized, "invalid password");
    let error = AuthProvider::LegacySharedPassword(provider)
        .authenticate(AccountsSource::Loaded(Vec::new()), None, "other")
        .expect_err("wrong password");
    assert_error(error, ErrorStatus::Unauthorized, "invalid password");
}

#[test]
fn accounts_are_read_with_their_names() {
    let configs = vec![
        config("  ada ", Some("  Ada L. "), "hash-a", false),
        config("bob", Some("   "), "hash-b", true),
        config("cy", None, "hash-c", false),
    ];
    let accounts = load_accounts(configs, "accounts.toml").expect("no fault");
    assert_eq!(accounts.len(), 3);
    assert_eq!(accounts[0].username, "ada");
    assert_eq!(accounts[0].display_name, "Ada L.");
    assert_eq!(accounts[1].display_name, "bob");
    assert!(accounts[1].disabled);
    assert_eq!(accounts[2].display_name, "cy");
    assert_eq!(accounts[2].password_hash, "hash-c");
    assert_eq!(accounts[2].role, AuthRole::Operator);
}

#[test]
fn faults_of_the_account_configuration() {
    let error = load_accounts(Vec::new(), "accounts.toml").expect_err("no accounts");
    assert_error(
        error,
        ErrorStatus::Internal,
        "UI auth config `accounts.toml` does not define any accounts",
    );
    let error = load_accounts(vec![config("  ", None, "h", false)], "a.toml").expect_err("no name");
    assert_error(error, ErrorStatus::Internal, "UI auth config `a.toml` contains an empty username");
    let twice = vec![config("ada", None, "h", false), config(" ada ", None, "h", false)];
    let error = load_accounts(twice, "a.toml").expect_err("a name twice");
    assert_error(
        error,
        ErrorStatus::Internal,
        "UI auth config `a.toml` contains duplicate username `ada`",
    );
}

#[test]
fn local_login_is_refused_without_telling_why() {
    let provider = local_provider();
    let hash = hash_of("right");
    let source = || {
        AccountsSource::Loaded(vec![
            config("ada", None, &hash, false),
            config("bob", None, &hash, true),
        ])
    };
    let actor = provider.authenticate(source(), Some(" ada "), "right").expect("right password");
    assert_eq!(actor.username, "ada");
    for (username, password) in [("ada", "wrong"), ("bob", "right"), ("cy", "right")] {
        let error = provider
            .authenticate(source(), Some(username), password)
            .expect_err("no access");
        assert_error(error, ErrorStatus::Unauthorized, "invalid username or password");
    }
    for username in [None, Some("   ")] {
        let error = provider.authenticate(source(), username, "right").expect_err("no name");
        assert_error(error, ErrorStatus::BadRequest, "username is required");
    }
}

#[test]
fn disabled_accounts_are_not_resolved() {
    let provider = local_provider();
    let source = || {
        AccountsSource::Loaded(vec![
            config("ada", Some("Ada"), "hash", false),
            config("bob", None, "hash", true),
        ])
    };
    let ada = provider.resolve_actor(source(), "ada").expect("no fault").expect("known");
    assert_eq!(ada.display_name, "Ada");
    assert_eq!(ada.role, AuthRole::Operator);
    assert_eq!(provider.resolve_actor(source(), "bob").expect("no fault"), None);
    assert_eq!(provider.resolve_actor(source(), "cy").expect("no fault"), None);
}

#[test]
fn unreadable_accounts_are_an_error() {
    let provider = local_provider();
    let failed = || AccountsSource::Failed(AppError::internal("failed to read accounts"));
    let error = provider.authenticate(failed(), Some("ada"), "right").expect_err("unreadable");
    assert_error(error, ErrorStatus::Internal, "failed to read accounts");
    let error = provider.resolve_actor(failed(), "ada").expect_err("unreadable");
    assert_error(error, ErrorStatus::Internal, "failed to read accounts");
}

#[test]
fn malformed_hashes_are_reported() {
    let error = check_password(account("ada", "not a hash"), "right").expect_err("malformed");
    assert_eq!(error.status, ErrorStatus::Internal);
    assert!(error.error.starts_with("invalid password hash for account `ada`: "));
    assert!(error.error.len() > "invalid password hash for account `ada`: ".len());
    let error = check_password(account("ada", "$unknown$v=19$c2FsdHNhbHQ$aGFzaGhhc2hoYXNo"), "right")
        .expect_err("unknown algorithm");
    assert_eq!(error.status, ErrorStatus::Internal);
    assert!(error.error.starts_with("failed to verify password for account `ada`: "));
}

#[test]
fn hashes_with_too_many_lanes_are_reported() {
    for lanes in [536_870_912_u32, u32::MAX] {
        let hash =
            format!("$argon2id$v=19$m=4096,t=3,p={lanes}$c2FsdHNhbHQ$aGFzaGhhc2hoYXNoaGFzaA");
        let error = check_password(account("ada", &hash), "right").expect_err("too many lanes");
        assert_error(
            error,
            ErrorStatus::Internal,
            "failed to verify password for account `ada`: too many lanes",
        );
    }
    let incomplete = "$argon2id$v=19$m=4096,t=3,p=536870912";
    let error = check_password(account("ada", incomplete), "right").expect_err("no output");
    assert_error(error, ErrorStatus::Unauthorized, "invalid username or password");
    let fewer = "$argon2id$v=19$m=4096,t=3,p=536870911$c2FsdHNhbHQ$aGFzaGhhc2hoYXNoaGFzaA";
    let error = check_password(account("ada", fewer), "right").expect_err("still too many");
    assert_eq!(error.status, ErrorStatus::Internal);
    assert!(error.error.starts_with("failed to verify password for account `ada`: "));
    assert!(!error.error.ends_with("too many lanes"));
    let repeated = "$argon2id$v=19$m=64,t=1,p=536870912,p=1$c2FsdHNhbHQ$aGFzaGhhc2hoYXNoaGFzaA";
    let error = check_password(account("ada", repeated), "right").expect_err("wrong password");
    assert_error(error, ErrorStatus::Unauthorized, "invalid username or password");
}

#[test]
fn lanes_are_read_from_the_last_parameter() {
    assert!(lanes_overflow("p=536870912"));
    assert!(lanes_overflow("m=8,p=1,p=4294967295,t=1"));
    for params in [
        "",
        "m=8",
        "p=",
        "p=1",
        "p=536870911",
        "p=4294967296",
        "p=0536870912",
        "p=+536870912",
        "p=536870912,p=1",
        "xp=536870912",
    ] {
        assert!(!lanes_overflow(params), "{params}");
    }
}

#[test]
fn verdicts_decide_on_access() {
    let actor = grant_access(account("ada", "hash"), Ok(true)).expect("right password");
    assert_eq!(actor.username, "ada");
    assert_eq!(actor.display_name, "Shown");
    let error = grant_access(account("ada", "hash"), Ok(false)).expect_err("wrong password");
    assert_error(error, ErrorStatus::Unauthorized, "invalid username or password");
    let error = grant_access(account("ada", "hash"), Err("cannot tell".to_string()))
        .expect_err("no verdict");
    assert_error(
        error,
        ErrorStatus::Internal,
        "failed to verify password for account `ada`: cannot tell",
    );
    assert_error(
        broken_hash("ada", "no salt"),
        ErrorStatus::Internal,
        "invalid password hash for account `ada`: no salt",
    );
}

#[test]
fn logins_are_remembered() {
    let provider = local_provider();
    let hash = hash_of("secret");
    let source = || {
        AccountsSource::Loaded(vec![
            config("bob", None, &hash, false),
            config(" ada ", Some("Ada"), &hash, false),
        ])
    };
    let actor = provider
        .authenticate(source(), Some("ada "), "secret")
        .expect("right password");
    let known = provider.resolve_actor(source(), &actor.username).expect("no fault");
    assert_eq!(known, Some(actor));
}
