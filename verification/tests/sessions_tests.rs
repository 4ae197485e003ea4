use elowen_api::auth::{
    AccountsSource, AuthMode, AuthPermission, AuthProvider, AuthRole, LegacySharedPasswordProvider,
    SessionActor,
};
use elowen_api::error::{AppError, ErrorStatus};
use elowen_api::sessions::{
    authorize, disabled_actor, new_session_token, require_session_actor, session_cookie_value,
    session_expiry, session_step, session_token_from_headers, AuthRuntime, SessionStep,
};
use elowen_api::time::Timestamp;

fn instant(secs: i64) -> Timestamp {
    Timestamp::from_parts(secs, 0).expect("the calendar holds the instant")
}

fn actor(role: AuthRole) -> SessionActor {
    SessionActor { username: "ada".to_string(), display_name: "Ada".to_string(), role }
}

fn shared() -> AuthProvider {
    AuthProvider::LegacySharedPassword(LegacySharedPasswordProvider {
        password: "secret".to_string(),
        display_name: "Operator".to_string(),
    })
}

fn runtime(provider: AuthProvider) -> AuthRuntime {
    AuthRuntime {
        provider,
        cookie_name: "elowen_session".to_string(),
        cookie_secure: false,
        session_ttl: 60,
    }
}

#[test]
fn status_of_a_session() {
    let disabled = runtime(AuthProvider::Disabled);
    assert!(!disabled.enabled());
    let status = disabled.build_auth_session_status(None);
    assert!(!status.enabled && status.authenticated);
    assert_eq!(status.auth_mode, AuthMode::Disabled);
    assert_eq!(status.permissions.len(), 3);
    assert_eq!(status.actor, None);
    let enabled = runtime(shared());
    assert!(enabled.enabled());
    let status = enabled.build_auth_session_status(None);
    assert!(status.enabled && !status.authenticated);
    assert_eq!(status.auth_mode, AuthMode::LegacySharedPassword);
    assert_eq!(status.permissions, Vec::<AuthPermission>::new());
    let status = enabled.build_auth_session_status(Some(actor(AuthRole::Viewer)));
    assert!(status.authenticated);
    assert_eq!(status.permissions, vec![AuthPermission::View]);
    assert_eq!(status.actor, Some(actor(AuthRole::Viewer)));
}

#[test]
fn requests_need_their_role() {
    let error = authorize(true, None, AuthRole::Viewer).expect_err("nobody signed in");
    assert_eq!(error.status, ErrorStatus::Unauthorized);
    assert_eq!(error.error, "sign in required");
    let error = authorize(true, Some(actor(AuthRole::Viewer)), AuthRole::Operator)
        .expect_err("too little");
    assert_eq!(error.status, ErrorStatus::Forbidden);
    assert_eq!(error.error, "the signed-in account is not allowed to perform this action");
    let allowed = authorize(true, Some(actor(AuthRole::Admin)), AuthRole::Operator).expect("enough");
    assert_eq!(allowed, actor(AuthRole::Admin));
    let local = authorize(false, None, AuthRole::Admin).expect("nobody has to sign in");
    assert_eq!(local, disabled_actor());
    assert_eq!(local.username, "local-operator");
    assert_eq!(local.display_name, "Local Operator");
    assert_eq!(local.role, AuthRole::Admin);
    assert_eq!(require_session_actor(None), disabled_actor());
    assert_eq!(require_session_actor(Some(actor(AuthRole::Viewer))), actor(AuthRole::Viewer));
}

#[test]
fn access_follows_the_permissions() {
    let roles = [AuthRole::Viewer, AuthRole::Operator, AuthRole::Admin];
    for has in roles {
        for needs in roles {
            let covered = needs.permissions().iter().all(|p| has.permissions().contains(p));
            assert_eq!(authorize(true, Some(actor(has)), needs).is_ok(), covered);
        }
    }
}

#[test]
fn sessions_follow_their_account() {
    let none = || AccountsSource::Loaded(Vec::new());
    assert!(matches!(session_step(&shared(), none(), None), Ok(SessionStep::Anonymous)));
    match session_step(&shared(), none(), Some("legacy-admin")) {
        Ok(SessionStep::Touch(actor)) => assert_eq!(actor.display_name, "Operator"),
        other => panic!("unexpected step {other:?}"),
    }
    assert!(matches!(session_step(&shared(), none(), Some("gone")), Ok(SessionStep::Forget)));
    let accounts =
        AuthProvider::from_config(Some("accounts.toml".to_string()), None, "Op".to_string());
    let failed = AccountsSource::Failed(AppError::internal("unreadable"));
    let error = session_step(&accounts, failed, Some("ada")).expect_err("unreadable");
    assert_eq!(error.error, "unreadable");
}

#[test]
fn tokens_are_long_and_new() {
    let first = new_session_token();
    let second = new_session_token();
    assert_ne!(first, second);
    assert_eq!(first.len(), 43);
    assert!(first.chars().all(|c| c.is_ascii_alphanumeric() || c == '-' || c == '_'));
}

#[test]
fn sessions_end() {
    let end = session_expiry(instant(1_000), 1_209_600).expect("within the calendar");
    assert_eq!(end, instant(1_210_600));
    let error = session_expiry(instant(0), 9_223_372_036_854_776).expect_err("too long");
    assert_eq!(error.status, ErrorStatus::Internal);
    assert_eq!(error.error, "Source duration value is out of range for the target type");
}

#[test]
fn cookies_have_their_form() {
    assert_eq!(
        session_cookie_value("elowen_session", Some("abc"), Some(60), true),
        "elowen_session=abc; HttpOnly; Path=/; SameSite=Strict; Secure; Max-Age=60"
    );
    assert_eq!(
        session_cookie_value("s", Some("abc"), Some(0), false),
        "s=abc; HttpOnly; Path=/; SameSite=Strict; Max-Age=0"
    );
    for (token, age) in [(None, None), (Some("abc"), None), (None, Some(60))] {
        assert_eq!(
            session_cookie_value("s", token, age, true),
            "s=; HttpOnly; Path=/; SameSite=Strict; Secure; Max-Age=0"
        );
    }
}

#[test]
fn cookies_are_read_by_name() {
    let read = |raw: &str| session_token_from_headers("s", Some(raw));
    assert_eq!(read("s=abc").as_deref(), Some("abc"));
    assert_eq!(read("a=1; s=abc; s=def").as_deref(), Some("abc"));
    assert_eq!(read("s; s=a=b ;x").as_deref(), Some("a=b"));
    assert_eq!(read("s=").as_deref(), Some(""));
    assert_eq!(read("S=abc; ss=abc"), None);
    assert_eq!(read(""), None);
    assert_eq!(session_token_from_headers("s", None), None);
}

#[test]
fn cookies_come_back() {
    let token = new_session_token();
    let cookie = session_cookie_value("elowen_session", Some(&token), Some(60), true);
    assert_eq!(session_token_from_headers("elowen_session", Some(&cookie)), Some(token.clone()));
    let header = format!("theme=dark; other=1; elowen_session={token}");
    assert_eq!(session_token_from_headers("elowen_session", Some(&header)), Some(token));
}
