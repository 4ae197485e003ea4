//! What accounts, sessions and settings promise: who is let in, what they may do,
//! and what the program takes from its environment.

use crate::auth;
use crate::auth::{
    AccountView, AccountsSource, AuthMode, AuthPermission, AuthProvider, AuthRole, LocalAccount,
    LocalAccountConfig, SessionActor,
};
use crate::config;
use crate::config::{RawSettings, Settings};
use crate::error::{AppError, ErrorView};
use crate::sessions;
use crate::sessions::{AuthRuntime, AuthSessionStatus, SessionStep};
use crate::text;
use crate::text_laws;
use crate::text_lemmas;
use crate::time;
use crate::time::Timestamp;
use vstd::prelude::*;

verus! {

// ---------------------------------------------------------------------------
// Roles
// ---------------------------------------------------------------------------

/// Everyone may view, operators and administrators may operate, and only
/// administrators may administer. A role allows what needs no more than it has.
pub proof fn law_what_roles_may_do(
    role: AuthRole,
    required: AuthRole,
    allowed: bool,
    list: Vec<AuthPermission>,
)
    requires
        call_ensures(AuthRole::allows, (&role, &required), allowed),
        call_ensures(AuthRole::permissions, (&role,), list),
    ensures
        list@.contains(AuthPermission::View),
        list@.contains(AuthPermission::Operate) <==> !(role is Viewer),
        list@.contains(AuthPermission::Admin) <==> role is Admin,
        list@.no_duplicates(),
        required is Viewer ==> allowed,
        required is Operator ==> (allowed <==> !(role is Viewer)),
        required is Admin ==> (allowed <==> role is Admin),
{
    let all = auth::role_permissions(role);
    assert(all[0] == AuthPermission::View);
    if !(role is Viewer) {
        assert(all[1] == AuthPermission::Operate);
    }
    if role is Admin {
        assert(all[2] == AuthPermission::Admin);
    }
}

/// A role is read by its name, in any case and with any space around it, and
/// nothing else is a role.
pub proof fn law_role_names(value: &str, r: Result<AuthRole, String>)
    requires
        call_ensures(AuthRole::parse, (value,), r),
    ensures
        r is Ok <==> text::lower(text::trim(value@)) == "viewer"@ || text::lower(text::trim(value@))
            == "operator"@ || text::lower(text::trim(value@)) == "admin"@,
        r matches Ok(role) ==> auth::role_name(role) == text::lower(text::trim(value@)),
{
    reveal_strlit("viewer");
    reveal_strlit("operator");
    reveal_strlit("admin");
    assert("viewer"@.len() == 6);
    assert("operator"@.len() == 8);
    assert("admin"@.len() == 5);
}

// ---------------------------------------------------------------------------
// Accounts
// ---------------------------------------------------------------------------

/// A configured account keeps its role, its hash and whether it is disabled. It
/// is named by its trimmed username, and shown so where it has no other name.
pub proof fn law_configured_account(c: LocalAccountConfig)
    ensures
        auth::account_of(c).username == text::trim(c.username@),
        auth::account_of(c).role == c.role,
        auth::account_of(c).password_hash == c.password_hash@,
        auth::account_of(c).disabled == c.disabled,
        c.display_name is Some && !text::is_blank(c.display_name.unwrap()@) ==> auth::account_of(
            c,
        ).display_name == text::trim(c.display_name.unwrap()@),
        c.display_name is None || text::is_blank(c.display_name.unwrap()@) ==> auth::account_of(
            c,
        ).display_name == text::trim(c.username@),
{
}

#[verifier::rlimit(60)]
proof fn lemma_accounts(configs: Seq<LocalAccountConfig>, path: Seq<char>)
    ensures
        auth::accounts_of(configs, path) matches Ok(list) ==> list =~= configs.map_values(
            |c: LocalAccountConfig| auth::account_of(c),
        ),
        auth::accounts_of(configs, path) is Ok <==> (forall|i: int|
            0 <= i < configs.len() ==> !text::is_blank((#[trigger] configs[i]).username@)) && (
        forall|i: int, j: int|
            0 <= i < j < configs.len() ==> text::trim((#[trigger] configs[i]).username@)
                != text::trim((#[trigger] configs[j]).username@)),
        auth::accounts_of(configs, path) matches Err(e) ==> e.status is Internal,
    decreases configs.len(),
{
    if configs.len() > 0 {
        let front = configs.drop_last();
        let last = configs.last();
        let n = front.len() as int;
        lemma_accounts(front, path);
        assert(configs[n] == last);
        assert forall|i: int| 0 <= i < n implies #[trigger] front[i] == configs[i] by {}
        if let Ok(list) = auth::accounts_of(front, path) {
            let name = text::trim(last.username@);
            if auth::has_account(list, name) {
                let i = choose|i: int| 0 <= i < list.len() && (#[trigger] list[i]).username == name;
                assert(list[i] == auth::account_of(front[i]));
                assert(text::trim(configs[i].username@) == text::trim(configs[n].username@));
            } else {
                assert forall|i: int, j: int| 0 <= i < j < configs.len() implies text::trim(
                    (#[trigger] configs[i]).username@,
                ) != text::trim((#[trigger] configs[j]).username@) by {
                    if j < n {
                        assert(front[i] == configs[i] && front[j] == configs[j]);
                    } else {
                        assert(list[i] == auth::account_of(front[i]));
                    }
                }
                if !text::is_blank(last.username@) {
                    assert forall|i: int| 0 <= i < configs.len() implies !text::is_blank(
                        (#[trigger] configs[i]).username@,
                    ) by {
                        if i < n {
                            assert(front[i] == configs[i]);
                        }
                    }
                }
            }
        } else {
            if (forall|i: int|
                0 <= i < configs.len() ==> !text::is_blank((#[trigger] configs[i]).username@)) && (
            forall|i: int, j: int|
                0 <= i < j < configs.len() ==> text::trim((#[trigger] configs[i]).username@)
                    != text::trim((#[trigger] configs[j]).username@)) {
                assert forall|i: int| 0 <= i < front.len() implies !text::is_blank(
                    (#[trigger] front[i]).username@,
                ) by {
                    assert(front[i] == configs[i]);
                }
                assert forall|i: int, j: int| 0 <= i < j < front.len() implies text::trim(
                    (#[trigger] front[i]).username@,
                ) != text::trim((#[trigger] front[j]).username@) by {
                    assert(front[i] == configs[i] && front[j] == configs[j]);
                }
            }
        }
    }
}

/// Accounts are loaded where there is one at all, each has a name and no two have
/// the same. They stand in the order in which they are configured.
pub proof fn law_loaded_accounts(
    configs: Vec<LocalAccountConfig>,
    path: &str,
    r: Result<Vec<LocalAccount>, AppError>,
)
    requires
        call_ensures(auth::load_accounts, (configs, path), r),
    ensures
        r is Ok <==> configs@.len() > 0 && (forall|i: int|
            0 <= i < configs@.len() ==> !text::is_blank((#[trigger] configs@[i]).username@)) && (
        forall|i: int, j: int|
            0 <= i < j < configs@.len() ==> text::trim((#[trigger] configs@[i]).username@)
                != text::trim((#[trigger] configs@[j]).username@)),
        r matches Err(e) ==> e.status is Internal,
        r matches Ok(list) ==> list@.len() == configs@.len() && forall|i: int|
            0 <= i < list@.len() ==> (#[trigger] list@[i])@ == auth::account_of(configs@[i]),
{
    lemma_accounts(configs@, path@);
    if let Ok(list) = r {
        let views = auth::account_views(list@);
        assert(views.len() == list@.len());
        assert forall|i: int| 0 <= i < list@.len() implies (#[trigger] list@[i])@
            == auth::account_of(configs@[i]) by {
            assert(views[i] == list@[i]@);
        }
    }
}

// ---------------------------------------------------------------------------
// Signing in
// ---------------------------------------------------------------------------

/// A password opens an account exactly where its hash says so, and opens it for
/// the actor that the account is for.
pub proof fn law_verdict_decides(
    account: LocalAccount,
    verdict: Result<bool, String>,
    r: Result<SessionActor, AppError>,
)
    requires
        call_ensures(auth::grant_access, (account, verdict), r),
    ensures
        r is Ok <==> verdict == Ok::<bool, String>(true),
        r matches Ok(actor) ==> actor.username@ == account.username@ && actor.display_name@
            == account.display_name@ && actor.role == account.role,
        verdict == Ok::<bool, String>(false) ==> (r matches Err(e) && e.status is Unauthorized),
        verdict is Err ==> (r matches Err(e) && e.status is Internal),
{
}

/// With local accounts one signs in exactly as an account that is known, not
/// disabled, and whose hash accepts the password. The spaces around the username
/// do not matter.
#[verifier::rlimit(60)]
pub proof fn law_local_sign_in(
    provider: AuthProvider,
    source: AccountsSource,
    username: Option<&str>,
    password: &str,
    r: Result<SessionActor, AppError>,
    accounts: Seq<AccountView>,
    i: int,
)
    requires
        call_ensures(AuthProvider::authenticate, (&provider, source, username, password), r),
        provider matches AuthProvider::LocalAccounts(p) && auth::source_accounts(source, p.path@)
            == Ok::<Seq<AccountView>, ErrorView>(accounts),
        username matches Some(name) && !text::is_blank(name@) && auth::is_account(
            accounts,
            text::trim(name@),
            i,
        ),
    ensures
        accounts[i].disabled ==> (r matches Err(e) && e.status is Unauthorized),
        r is Ok <==> !accounts[i].disabled && auth::hash_error(accounts[i].password_hash) is None
            && !auth::is_out_of_range(auth::hash_parts(accounts[i].password_hash))
            && auth::hash_verdict(accounts[i].password_hash, password@) == Ok::<bool, Seq<char>>(
            true,
        ),
        r matches Ok(actor) ==> actor.username@ == text::trim(username.unwrap()@)
            && actor.display_name@ == accounts[i].display_name && actor.role == accounts[i].role,
{
    let name = text::trim(username.unwrap()@);
    let k = choose|k: int| #[trigger] auth::is_account(accounts, name, k);
    if k < i {
        assert(accounts[k].username != name);
    } else if i < k {
        assert(accounts[i].username != name);
    }
}

/// With local accounts nobody signs in without a username or with an unknown one,
/// nor where the accounts cannot be read.
#[verifier::rlimit(60)]
pub proof fn law_local_sign_in_refused(
    provider: AuthProvider,
    source: AccountsSource,
    username: Option<&str>,
    password: &str,
    r: Result<SessionActor, AppError>,
)
    requires
        call_ensures(AuthProvider::authenticate, (&provider, source, username, password), r),
        provider is LocalAccounts,
    ensures
        username is None || text::is_blank(username.unwrap()@) ==> (r matches Err(e)
            && e.status is BadRequest),
        username is Some && !text::is_blank(username.unwrap()@) ==> (provider matches AuthProvider::LocalAccounts(
            p,
        ) && (auth::source_accounts(source, p.path@) matches Err(e) ==> (r matches Err(f) && f@
            == e))),
        username is Some && !text::is_blank(username.unwrap()@) ==> (provider matches AuthProvider::LocalAccounts(
            p,
        ) && (auth::source_accounts(source, p.path@) matches Ok(accounts) ==> !auth::has_account(
            accounts,
            text::trim(username.unwrap()@),
        ) ==> (r matches Err(e) && e.status is Unauthorized))),
{
    if let AuthProvider::LocalAccounts(p) = provider {
        if let Ok(accounts) = auth::source_accounts(source, p.path@) {
            if let Some(name) = username {
                if exists|i: int| #[trigger] auth::is_account(accounts, text::trim(name@), i) {
                    let i = choose|i: int|
                        #[trigger] auth::is_account(accounts, text::trim(name@), i);
                    assert(accounts[i].username == text::trim(name@));
                }
            }
        }
    }
}

/// With a shared password exactly that password signs in, as the one
/// administrator that there is; without authentication nobody signs in.
pub proof fn law_shared_sign_in(
    provider: AuthProvider,
    source: AccountsSource,
    username: Option<&str>,
    password: &str,
    r: Result<SessionActor, AppError>,
)
    requires
        call_ensures(AuthProvider::authenticate, (&provider, source, username, password), r),
    ensures
        provider matches AuthProvider::LegacySharedPassword(p) ==> (r is Ok <==> password@
            == p.password@) && (r matches Ok(actor) ==> actor.role is Admin && actor.username@
            == "legacy-admin"@ && actor.display_name@ == p.display_name@) && (r matches Err(e)
            ==> e.status is Unauthorized),
        provider is Disabled ==> (r matches Err(e) && e.status is Conflict),
{
}

/// A path to accounts decides for local accounts; without one, a password that is
/// not empty for the shared password; without either, authentication is off.
pub proof fn law_choice_of_provider(
    path: Option<String>,
    password: Option<String>,
    label: String,
    r: AuthProvider,
    on: bool,
    mode: AuthMode,
)
    requires
        call_ensures(AuthProvider::from_config, (path, password, label), r),
        call_ensures(AuthProvider::enabled, (&r,), on),
        call_ensures(AuthProvider::mode, (&r,), mode),
    ensures
        r is LocalAccounts <==> path is Some && !text::is_blank(path.unwrap()@),
        r matches AuthProvider::LocalAccounts(p) ==> p.path@ == text::trim(path.unwrap()@),
        r is LegacySharedPassword <==> !(r is LocalAccounts) && password is Some
            && password.unwrap()@.len() > 0,
        r matches AuthProvider::LegacySharedPassword(p) ==> p.password@ == password.unwrap()@
            && p.display_name@ == label@,
        on <==> !(r is Disabled),
        mode is LocalAccounts <==> r is LocalAccounts,
        mode is LegacySharedPassword <==> r is LegacySharedPassword,
        mode is Disabled <==> r is Disabled,
{
}

proof fn lemma_enabled(accounts: Seq<AccountView>, username: Seq<char>)
    ensures
        match auth::enabled_actor(accounts, username) {
            Some(actor) => exists|i: int|
                0 <= i < accounts.len() && (#[trigger] accounts[i]).username == username
                    && !accounts[i].disabled && actor.username == username && actor.display_name
                    == accounts[i].display_name && actor.role == accounts[i].role,
            None => forall|i: int|
                0 <= i < accounts.len() && (#[trigger] accounts[i]).username == username
                    ==> accounts[i].disabled,
        },
    decreases accounts.len(),
{
    if accounts.len() > 0 && !(accounts[0].username == username && !accounts[0].disabled) {
        let rest = accounts.drop_first();
        lemma_enabled(rest, username);
        match auth::enabled_actor(rest, username) {
            Some(actor) => {
                let i = choose|i: int|
                    0 <= i < rest.len() && (#[trigger] rest[i]).username == username
                        && !rest[i].disabled && actor.username == username && actor.display_name
                        == rest[i].display_name && actor.role == rest[i].role;
                assert(accounts[i + 1] == rest[i]);
            },
            None => {
                assert forall|i: int|
                    0 <= i < accounts.len() && (#[trigger] accounts[i]).username
                        == username implies accounts[i].disabled by {
                    if i > 0 {
                        assert(rest[i - 1] == accounts[i]);
                    }
                }
            },
        }
    }
}

/// A stored session belongs to an account that is known and not disabled, with
/// the name and role that the account has now.
pub proof fn law_known_actor(
    provider: AuthProvider,
    source: AccountsSource,
    username: &str,
    r: Result<Option<SessionActor>, AppError>,
    accounts: Seq<AccountView>,
)
    requires
        call_ensures(AuthProvider::resolve_actor, (&provider, source, username), r),
        provider matches AuthProvider::LocalAccounts(p) && auth::source_accounts(source, p.path@)
            == Ok::<Seq<AccountView>, ErrorView>(accounts),
    ensures
        r matches Ok(known) && match known {
            Some(actor) => exists|i: int|
                0 <= i < accounts.len() && (#[trigger] accounts[i]).username == username@
                    && !accounts[i].disabled && actor.username@ == username@ && actor.display_name@
                    == accounts[i].display_name && actor.role == accounts[i].role,
            None => forall|i: int|
                0 <= i < accounts.len() && (#[trigger] accounts[i]).username == username@
                    ==> accounts[i].disabled,
        },
{
    lemma_enabled(accounts, username@);
}

/// With a shared password the one administrator is known and nobody else; without
/// authentication nobody is.
pub proof fn law_known_shared_actor(
    provider: AuthProvider,
    source: AccountsSource,
    username: &str,
    r: Result<Option<SessionActor>, AppError>,
)
    requires
        call_ensures(AuthProvider::resolve_actor, (&provider, source, username), r),
    ensures
        provider is Disabled ==> (r matches Ok(known) && known is None),
        provider matches AuthProvider::LegacySharedPassword(p) ==> (r matches Ok(known) && (
        known is Some <==> username@ == "legacy-admin"@) && (known matches Some(actor)
            ==> actor.role is Admin && actor.username@ == "legacy-admin"@ && actor.display_name@
            == p.display_name@)),
{
}

// ---------------------------------------------------------------------------
// Sessions
// ---------------------------------------------------------------------------

/// An action is open to an actor who may do it. With authentication on, nobody
/// else passes: without an actor one has to sign in, and too low a role is
/// forbidden. With it off, everyone acts as the local administrator.
pub proof fn law_authorization(
    enabled: bool,
    actor: Option<SessionActor>,
    required: AuthRole,
    r: Result<SessionActor, AppError>,
)
    requires
        call_ensures(sessions::authorize, (enabled, actor, required), r),
    ensures
        !enabled ==> (r matches Ok(a) && a.role is Admin && a.username@ == "local-operator"@),
        enabled && actor is None ==> (r matches Err(e) && e.status is Unauthorized),
        enabled && actor is Some ==> (r is Ok <==> required is Viewer || (required is Operator && !(
        actor.unwrap().role is Viewer)) || actor.unwrap().role is Admin),
        enabled && actor is Some ==> (r matches Err(e) ==> e.status is Forbidden),
        enabled ==> (r matches Ok(a) ==> a@ == actor.unwrap()@),
{
}

/// The status says who is signed in and what they may do. Where authentication is
/// off, everyone may do everything.
pub proof fn law_session_status(
    runtime: AuthRuntime,
    actor: Option<SessionActor>,
    status: AuthSessionStatus,
)
    requires
        call_ensures(AuthRuntime::build_auth_session_status, (&runtime, actor), status),
    ensures
        status.enabled <==> !(runtime.provider is Disabled),
        status.authenticated <==> actor is Some || runtime.provider is Disabled,
        status.actor == actor,
        status.auth_mode is Disabled <==> runtime.provider is Disabled,
        status.auth_mode is LocalAccounts <==> runtime.provider is LocalAccounts,
        status.permissions@.contains(AuthPermission::Admin) <==> runtime.provider is Disabled || (
        actor matches Some(a) && a.role is Admin),
        status.permissions@.contains(AuthPermission::Operate) <==> runtime.provider is Disabled || (
        actor matches Some(a) && !(a.role is Viewer)),
        status.permissions@.contains(AuthPermission::View) <==> status.authenticated,
{
    let full = auth::role_permissions(AuthRole::Admin);
    assert(full[0] == AuthPermission::View);
    assert(full[1] == AuthPermission::Operate);
    assert(full[2] == AuthPermission::Admin);
    if let Some(a) = actor {
        let own = auth::role_permissions(a.role);
        assert(own[0] == AuthPermission::View);
        if !(a.role is Viewer) {
            assert(own[1] == AuthPermission::Operate);
        }
        if a.role is Admin {
            assert(own[2] == AuthPermission::Admin);
        }
    }
}

/// Without a signed-in actor a request is the local administrator's.
pub proof fn law_acting_actor(actor: Option<SessionActor>, r: SessionActor)
    requires
        call_ensures(sessions::require_session_actor, (actor,), r),
    ensures
        actor matches Some(a) ==> r@ == a@,
        actor is None ==> r.role is Admin && r.username@ == "local-operator"@,
{
}

/// A session is kept for an actor that is still known and forgotten otherwise;
/// where there is none stored, nobody is signed in.
pub proof fn law_session_step(
    provider: AuthProvider,
    source: AccountsSource,
    stored: Option<&str>,
    r: Result<SessionStep, AppError>,
)
    requires
        call_ensures(sessions::session_step, (&provider, source, stored), r),
    ensures
        stored is None <==> (r matches Ok(step) && step is Anonymous),
        stored matches Some(username) ==> match provider.known_actor(source, username@) {
            Ok(Some(actor)) => r matches Ok(SessionStep::Touch(a)) && a@ == actor,
            Ok(None) => r matches Ok(step) && step is Forget,
            Err(e) => r matches Err(f) && f@ == e,
        },
{
}

/// A session ends its lifetime after it began, or the lifetime is too long to be
/// counted.
pub proof fn law_session_expiry(
    now: Timestamp,
    ttl: u64,
    r: Result<Timestamp, AppError>,
)
    requires
        call_ensures(sessions::session_expiry, (now, ttl), r),
        now.nanos() < time::SECOND_NANOS,
    ensures
        r is Ok <==> ttl <= 9_223_372_036_854_775,
        r matches Ok(t) ==> t.secs() == now.secs() + ttl && t.nanos() == now.nanos() && (ttl > 0
            ==> time::after(t, now)),
        r matches Err(e) ==> e.status is Internal,
{
}

/// Cookies of other names do not hide the one that is looked for, and without it
/// there is no token.
pub proof fn law_cookie_header(
    name: &str,
    raw: Option<&str>,
    r: Option<String>,
    before: Seq<char>,
    after: Seq<char>,
)
    requires
        call_ensures(sessions::session_token_from_headers, (name, raw), r),
    ensures
        raw is None ==> r is None,
        raw is Some && !raw.unwrap()@.contains('=') ==> r is None,
        raw is Some && raw.unwrap()@ == before.push(';') + after ==> text::opt(r) == text::or_else(
            sessions::cookie_token(before, name@),
            sessions::cookie_token(after, name@),
        ),
{
    let f = text::just(';');
    if let Some(text) = raw {
        if !text@.contains('=') {
            let parts = text::split_by(text@, f);
            text_lemmas::lemma_split_chars(text@, f);
            assert forall|k: int| 0 <= k < parts.len() implies !(#[trigger] parts[k]).contains(
                '=',
            ) by {
                if parts[k].contains('=') {
                    let i = choose|i: int| 0 <= i < parts[k].len() && parts[k][i] == '=';
                    assert(text@.contains(parts[k][i]));
                }
            }
            lemma_no_value(parts, name@);
        }
        if text@ == before.push(';') + after {
            text_laws::law_split_at_separator(before, ';', after, f);
            lemma_first_of_both(text::split_by(before, f), text::split_by(after, f), name@);
        }
    }
}

proof fn lemma_no_value(parts: text::Texts, name: Seq<char>)
    requires
        forall|k: int| 0 <= k < parts.len() ==> !(#[trigger] parts[k]).contains('='),
    ensures
        sessions::first_value(parts, name) is None,
    decreases parts.len(),
{
    if parts.len() > 0 {
        let rest = parts.drop_first();
        let pair = text::trim(parts[0]);
        let r = text_lemmas::trim_range(parts[0], text::space());
        if pair.contains('=') {
            let i = choose|i: int| 0 <= i < pair.len() && pair[i] == '=';
            assert(parts[0][r.0 + i] == '=');
        }
        assert forall|k: int| 0 <= k < rest.len() implies !(#[trigger] rest[k]).contains('=') by {
            assert(rest[k] == parts[k + 1]);
        }
        lemma_no_value(rest, name);
    }
}

proof fn lemma_first_of_both(a: text::Texts, b: text::Texts, name: Seq<char>)
    ensures
        sessions::first_value(a + b, name) == text::or_else(
            sessions::first_value(a, name),
            sessions::first_value(b, name),
        ),
    decreases a.len(),
{
    if a.len() == 0 {
        assert(a + b =~= b);
    } else {
        assert((a + b).drop_first() =~= a.drop_first() + b);
        lemma_first_of_both(a.drop_first(), b, name);
    }
}

/// A session cookie is kept from scripts and other sites, and from plain
/// connections where that is asked for. Without a token it is emptied and expires
/// at once.
#[verifier::rlimit(60)]
pub proof fn law_session_cookie(
    name: &str,
    token: &str,
    age: u64,
    secure: bool,
    set: String,
    cleared: String,
)
    requires
        call_ensures(sessions::session_cookie_value, (name, Some(token), Some(age), secure), set),
        call_ensures(sessions::session_cookie_value, (name, None, None, secure), cleared),
    ensures
        text::starts_with(set@, name@ + "="@ + token@ + ";"@),
        text::contains(set@, "; HttpOnly; Path=/; SameSite=Strict"@),
        text::ends_with(set@, "; Max-Age="@ + text::decimal(age as nat)),
        text::starts_with(cleared@, name@ + "=;"@),
        text::ends_with(cleared@, "; Max-Age=0"@),
        secure ==> text::contains(set@, "; Secure"@) && text::contains(cleared@, "; Secure"@),
{
    let flags = "; HttpOnly; Path=/; SameSite=Strict"@;
    let safe = "; Secure"@;
    let mark = if secure {
        safe
    } else {
        Seq::<char>::empty()
    };
    let age_text = "; Max-Age="@ + text::decimal(age as nat);
    reveal_strlit(";");
    reveal_strlit("=");
    reveal_strlit("=;");
    reveal_strlit("; HttpOnly; Path=/; SameSite=Strict");
    reveal_strlit("=; HttpOnly; Path=/; SameSite=Strict");
    let head = name@ + "="@ + token@;
    assert(set@ =~= head + flags + (mark + age_text));
    text_laws::law_contains(head, flags, mark + age_text);
    let begin = head + ";"@;
    assert(set@.take(begin.len() as int) =~= begin);
    assert(set@ =~= (head + flags + mark) + age_text);
    text_laws::law_contains(head + flags + mark, age_text, Seq::empty());
    let empty = name@ + "=;"@;
    assert(cleared@.take(empty.len() as int) =~= empty);
    let lead = name@ + "=; HttpOnly; Path=/; SameSite=Strict"@;
    text_laws::law_contains(lead + mark, "; Max-Age=0"@, Seq::empty());
    if secure {
        assert(set@ =~= (head + flags) + safe + age_text);
        text_laws::law_contains(head + flags, safe, age_text);
        text_laws::law_contains(lead, safe, "; Max-Age=0"@);
    }
}

// ---------------------------------------------------------------------------
// Settings
// ---------------------------------------------------------------------------

/// A switch is on for four words, in any case and with any space around them, and
/// off for everything else.
pub proof fn law_switch_words(value: &str, r: bool)
    requires
        call_ensures(config::parse_bool, (value,), r),
    ensures
        r <==> {
            let word = text::lower(text::trim(value@));
            ||| word == "1"@
            ||| word == "true"@
            ||| word == "yes"@
            ||| word == "on"@
        },
{
    let list = config::YES@;
    assert(list.len() == 4);
    assert(list[0] == "1");
    assert(list[1] == "true");
    assert(list[2] == "yes");
    assert(list[3] == "on");
}

proof fn lemma_digits(s: Seq<char>)
    requires
        forall|i: int| 0 <= i < s.len() ==> '0' <= #[trigger] s[i] <= '9',
    ensures
        config::digits_value(s) matches Some(n) && n == text_laws::value_of(s),
    decreases s.len(),
{
    if s.len() > 0 {
        let front = s.drop_last();
        assert forall|i: int| 0 <= i < front.len() implies '0' <= #[trigger] front[i] <= '9' by {
            assert(front[i] == s[i]);
        }
        lemma_digits(front);
        assert('0' <= s[s.len() - 1] <= '9');
    }
}

proof fn lemma_other_char(s: Seq<char>, k: int)
    requires
        0 <= k < s.len(),
        !('0' <= s[k] <= '9'),
    ensures
        config::digits_value(s) is None,
    decreases s.len(),
{
    if k < s.len() - 1 {
        assert(s.drop_last()[k] == s[k]);
        lemma_other_char(s.drop_last(), k);
    }
}

/// A number is read from digits, with a plus sign before them at most, where it
/// is within its limit; anything else is no number.
pub proof fn law_numbers(digits: Seq<char>, value: &str, max: u64, r: Option<u64>)
    requires
        call_ensures(config::parse_unsigned, (value, max), r),
        value@ == digits || value@ == seq!['+'] + digits,
        digits.len() > 0 ==> digits[0] != '+',
    ensures
        r is Some <==> digits.len() > 0 && (forall|i: int|
            0 <= i < digits.len() ==> '0' <= #[trigger] digits[i] <= '9') && text_laws::value_of(
            digits,
        ) <= max,
        r matches Some(n) ==> n == text_laws::value_of(digits),
{
    if value@ == seq!['+'] + digits {
        assert(value@.drop_first() =~= digits);
    }
    assert(config::unsigned_digits(value@) == digits);
    if forall|i: int| 0 <= i < digits.len() ==> '0' <= #[trigger] digits[i] <= '9' {
        lemma_digits(digits);
    } else {
        let k = choose|k: int| 0 <= k < digits.len() && !('0' <= #[trigger] digits[k] <= '9');
        lemma_other_char(digits, k);
    }
}

/// A list is what its array says where it begins with a bracket, and otherwise
/// what stands between commas; blank items are left out.
pub proof fn law_lists(a: Seq<char>, b: Seq<char>, array: Option<text::Texts>)
    requires
        !text::starts_with(text::trim(a.push(',') + b), "["@),
        forall|i: int| 0 <= i < a.len() ==> #[trigger] a[i] != ',',
    ensures
        config::listed(a.push(',') + b, array) == Some(
            config::said(seq![a] + text::split_by(b, text::just(','))),
        ),
{
    let f = text::just(',');
    text_laws::law_split_at_separator(a, ',', b, f);
    text_laws::law_split_without_separator(a, f);
}

/// A list in brackets is read as an array or not at all.
pub proof fn law_array_lists(value: &str, array: Option<Vec<String>>, r: Option<Vec<String>>)
    requires
        call_ensures(config::list_from, (value, array), r),
        text::starts_with(text::trim(value@), "["@),
    ensures
        r is Some <==> array is Some,
        r matches Some(list) ==> text::views(list@) == text::non_empty(
            text::trimmed(text::views(array.unwrap()@)),
        ),
{
}

/// A single setting stands before the list of many, unless it is blank.
pub proof fn law_joined_settings(one: Option<&str>, many: Vec<String>, r: Vec<String>)
    requires
        call_ensures(config::join_settings, (one, many), r),
    ensures
        one is Some && !text::is_blank(one.unwrap()@) ==> text::views(r@) == seq![
            text::trim(one.unwrap()@),
        ] + text::views(many@),
        one is None || text::is_blank(one.unwrap()@) ==> text::views(r@) == text::views(many@),
{
    assert(Seq::<Seq<char>>::empty() + text::views(many@) =~= text::views(many@));
    if let Some(x) = one {
        assert(Seq::<Seq<char>>::empty().push(text::trim(x@)) =~= seq![text::trim(x@)]);
    }
}

/// What is set counts and what is not set has a default. Switches are off and
/// secrets absent where nothing is said; addresses end in no slash.
#[verifier::rlimit(60)]
pub proof fn law_settings(raw: RawSettings, r: Settings)
    requires
        call_ensures(Settings::read, (raw,), r),
    ensures
        r.notes_url@ == text::trim_end_by(
            text::or_value(text::opt(raw.notes_url), "http://elowen-notes:8080"@),
            text::just('/'),
        ),
        r.assistant_base_url@ == text::trim_end_by(
            text::or_value(text::opt(raw.assistant_base_url), "https://api.openai.com/v1"@),
            text::just('/'),
        ),
        raw.assistant_model is None ==> r.assistant_model@ == text::trim("gpt-4.1-mini"@),
        raw.assistant_model matches Some(v) ==> r.assistant_model@ == text::trim(v@),
        raw.auth_operator_label is None ==> r.auth_operator_label@ == text::trim("Operator"@),
        raw.auth_operator_label matches Some(v) ==> r.auth_operator_label@ == text::trim(v@),
        raw.auth_cookie_name is None ==> r.auth_cookie_name@ == text::trim("elowen_session"@),
        raw.auth_cookie_name matches Some(v) ==> r.auth_cookie_name@ == text::trim(v@),
        r.assistant_api_key is Some <==> raw.assistant_api_key is Some && !text::is_blank(
            raw.assistant_api_key.unwrap()@,
        ),
        r.assistant_api_key matches Some(v) ==> v@ == text::trim(raw.assistant_api_key.unwrap()@),
        r.auth_config_path is Some <==> raw.auth_config_path is Some && !text::is_blank(
            raw.auth_config_path.unwrap()@,
        ),
        r.auth_config_path matches Some(v) ==> v@ == text::trim(raw.auth_config_path.unwrap()@),
        r.auth_password is Some <==> raw.auth_password is Some && !text::is_blank(
            raw.auth_password.unwrap()@,
        ),
        r.auth_password matches Some(v) ==> v@ == text::trim(raw.auth_password.unwrap()@),
        r.auth_cookie_secure <==> raw.auth_cookie_secure is Some && config::means_yes(
            raw.auth_cookie_secure.unwrap()@,
        ),
        r.require_trusted_edge_registration <==> raw.require_trusted_edge_registration is Some
            && config::means_yes(raw.require_trusted_edge_registration.unwrap()@),
        raw.auth_session_days is None ==> r.auth_session_days == 14,
        raw.auth_session_days matches Some(v) ==> match config::unsigned_value(
            v@,
            u64::MAX as nat,
        ) {
            Some(n) => r.auth_session_days == n,
            None => r.auth_session_days == 14,
        },
        raw.port is None ==> r.port == 8080,
        raw.port matches Some(v) ==> match config::unsigned_value(v@, 65_535) {
            Some(n) => r.port == n,
            None => r.port == 8080,
        },
{
}

/// An address of a service's own comes before the common one; a day has 86,400
/// seconds; logs are JSON where that is asked for in any case.
pub proof fn law_small_settings(
    own: Option<String>,
    common: Option<String>,
    url: Option<String>,
    days: u64,
    ttl: u64,
    format: Option<&str>,
    as_json: bool,
)
    requires
        call_ensures(config::service_url, (own, common), url),
        call_ensures(config::session_ttl, (days,), ttl),
        call_ensures(config::logs_json, (format,), as_json),
    ensures
        own is Some ==> text::opt(url) == text::opt(own),
        own is None ==> text::opt(url) == text::opt(common),
        ttl == days * 24 * 60 * 60,
        as_json <==> format is Some && text::lower(format.unwrap()@) == "json"@,
{
}

// ---------------------------------------------------------------------------
// Passwords
// ---------------------------------------------------------------------------

/// A password is checked against the hash of the account alone: a hash that
/// cannot be read or used is an error of the program, a wrong password one of the
/// caller.
pub proof fn law_checked_password(
    account: LocalAccount,
    password: &str,
    r: Result<SessionActor, AppError>,
)
    requires
        call_ensures(auth::check_password, (account, password), r),
    ensures
        auth::hash_error(account.password_hash@) is Some ==> (r matches Err(e)
            && e.status is Internal),
        auth::hash_error(account.password_hash@) is None && !auth::is_out_of_range(
            auth::hash_parts(account.password_hash@),
        ) ==> match auth::hash_verdict(account.password_hash@, password@) {
            Ok(same) => if same {
                r matches Ok(actor) && actor.username@ == account.username@ && actor.display_name@
                    == account.display_name@ && actor.role == account.role
            } else {
                r matches Err(e) && e.status is Unauthorized
            },
            Err(_) => r matches Err(e) && e.status is Internal,
        },
        r matches Ok(actor) ==> actor.role == account.role,
{
}

/// The lanes of a hash are those of its last parameter `p`; they are too many from
/// the limit on, as far as a parameter can go.
#[verifier::rlimit(60)]
pub proof fn law_lanes(before: Seq<char>, n: nat, params: &str, r: bool)
    requires
        call_ensures(auth::lanes_overflow, (params,), r),
        params@ == "p="@ + text::decimal(n) || params@ == before.push(',') + ("p="@ + text::decimal(
            n,
        )),
    ensures
        r <==> 536_870_912 <= n <= 4_294_967_295,
{
    let f = text::just(',');
    let last = "p="@ + text::decimal(n);
    reveal_strlit("p=");
    text_lemmas::lemma_decimal(n);
    assert forall|i: int| 0 <= i < last.len() implies !f(#[trigger] last[i]) by {
        if i >= 2 {
            assert(last[i] == text::decimal(n)[i - 2]);
        }
    }
    text_laws::law_split_without_separator(last, f);
    if params@ == before.push(',') + last {
        text_laws::law_split_at_separator(before, ',', last, f);
    }
    let parts = text::split_by(params@, f);
    assert(parts.last() == last);
    assert(last.take(2) =~= "p="@);
    assert(last.skip(2) =~= text::decimal(n));
    if auth::is_lanes_overflow(text::decimal(n)) {
        let m = choose|m: nat|
            auth::LANES_LIMIT <= m <= auth::PARAMETER_MAX && text::decimal(n)
                == #[trigger] text::decimal(m);
        text_lemmas::lemma_decimal_is_unique(n, m);
    }
}

/// A list that does not begin with a bracket can always be read; one that does can
/// be read exactly where it is an array of strings.
pub proof fn law_readable_lists(value: &str, r: Option<Vec<String>>)
    requires
        call_ensures(config::parse_list, (value,), r),
    ensures
        r is Some <==> !text::starts_with(text::trim(value@), "["@) || config::string_array(
            value@,
        ) is Some,
        !text::starts_with(text::trim(value@), "["@) ==> text::views(r.unwrap()@)
            == text::non_empty(text::trimmed(text::split_by(value@, text::just(',')))),
        text::starts_with(text::trim(value@), "["@) && r is Some ==> text::views(r.unwrap()@)
            == text::non_empty(text::trimmed(config::string_array(value@).unwrap())),
{
}

} // verus!
