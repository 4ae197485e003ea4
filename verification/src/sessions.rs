//! Sessions of the web UI.

use crate::auth;
use crate::auth::{
    AccountsSource, ActorView, AuthMode, AuthPermission, AuthProvider, AuthRole, SessionActor,
};
use crate::crypto;
use crate::crypto::encode_base64;
use crate::error;
use crate::error::{AppError, ErrorStatus, ErrorView};
use crate::registration::random_bytes;
use crate::scan;
use crate::scan::{chars_of, same, text_of, CharClass};
use crate::text;
use crate::text_lemmas;
use crate::time;
use crate::time::Timestamp;
use vstd::prelude::*;
use vstd::slice::slice_subrange;

verus! {

/// The account name where nobody has to sign in.
pub const DISABLED_AUTH_USERNAME: &'static str = "local-operator";

/// The name shown where nobody has to sign in.
pub const DISABLED_AUTH_DISPLAY_NAME: &'static str = "Local Operator";

/// Most seconds that a span of time can have.
pub const LONGEST_SPAN: u64 = 9_223_372_036_854_775;

/// Settings of the sessions.
#[derive(Debug)]
pub struct AuthRuntime {
    pub provider: AuthProvider,
    pub cookie_name: String,
    pub cookie_secure: bool,
    /// How many seconds a session lasts.
    pub session_ttl: u64,
}

/// What the web UI is told about a session.
#[derive(Debug)]
pub struct AuthSessionStatus {
    pub enabled: bool,
    pub auth_mode: AuthMode,
    pub authenticated: bool,
    pub actor: Option<SessionActor>,
    pub permissions: Vec<AuthPermission>,
}

impl AuthRuntime {
    /// Whether operators have to sign in.
    pub fn enabled(&self) -> (r: bool)
        ensures
            r == !(self.provider is Disabled),
    {
        self.provider.enabled()
    }

    /// What the web UI is told about a session of `actor`.
    pub fn build_auth_session_status(&self, actor: Option<SessionActor>) -> (r: AuthSessionStatus)
        ensures
            r.enabled == !(self.provider is Disabled),
            r.auth_mode == match self.provider {
                AuthProvider::Disabled => AuthMode::Disabled,
                AuthProvider::LegacySharedPassword(_) => AuthMode::LegacySharedPassword,
                AuthProvider::LocalAccounts(_) => AuthMode::LocalAccounts,
            },
            r.authenticated == (actor is Some || self.provider is Disabled),
            r.actor == actor,
            r.permissions@ == if self.provider is Disabled {
                auth::role_permissions(AuthRole::Admin)
            } else {
                match actor {
                    Some(a) => auth::role_permissions(a.role),
                    None => Seq::<AuthPermission>::empty(),
                }
            },
    {
        let enabled = self.enabled();
        let permissions = if enabled {
            match &actor {
                Some(actor) => actor.permissions(),
                None => Vec::new(),
            }
        } else {
            AuthRole::Admin.permissions()
        };
        AuthSessionStatus {
            enabled,
            auth_mode: self.provider.mode(),
            authenticated: actor.is_some() || !enabled,
            actor,
            permissions,
        }
    }
}

/// The operator where nobody has to sign in.
pub open spec fn local_operator() -> ActorView {
    ActorView {
        username: DISABLED_AUTH_USERNAME@,
        display_name: DISABLED_AUTH_DISPLAY_NAME@,
        role: AuthRole::Admin,
    }
}

/// The operator where nobody has to sign in.
pub fn disabled_actor() -> (r: SessionActor)
    ensures
        r@ == local_operator(),
{
    SessionActor {
        username: DISABLED_AUTH_USERNAME.to_string(),
        display_name: DISABLED_AUTH_DISPLAY_NAME.to_string(),
        role: AuthRole::Admin,
    }
}

/// The operator of a request that was let through.
pub fn require_session_actor(actor: Option<SessionActor>) -> (r: SessionActor)
    ensures
        r@ == text::or_value(auth::opt_actor(actor), local_operator()),
{
    match actor {
        Some(actor) => actor,
        None => disabled_actor(),
    }
}

/// Who makes a request that needs a role, or why it is refused.
pub open spec fn authorized(enabled: bool, actor: Option<ActorView>, required: AuthRole) -> Result<
    ActorView,
    ErrorView,
> {
    let who = if enabled {
        actor
    } else {
        Some(local_operator())
    };
    match who {
        None => Err(error::plain(ErrorStatus::Unauthorized, "sign in required"@)),
        Some(a) => if auth::role_rank(a.role) >= auth::role_rank(required) {
            Ok(a)
        } else {
            Err(
                error::plain(
                    ErrorStatus::Forbidden,
                    "the signed-in account is not allowed to perform this action"@,
                ),
            )
        },
    }
}

/// Who makes a request that needs a role, or why it is refused. `actor` is the
/// operator of the session, where there is one.
pub fn authorize(enabled: bool, actor: Option<SessionActor>, required: AuthRole) -> (r: Result<
    SessionActor,
    AppError,
>)
    ensures
        auth::actor_result(r) == authorized(enabled, auth::opt_actor(actor), required),
{
    let actor = if enabled {
        match actor {
            Some(actor) => actor,
            None => return Err(AppError::unauthorized("sign in required")),
        }
    } else {
        disabled_actor()
    };
    if !actor.role.allows(&required) {
        return Err(
            AppError::forbidden("the signed-in account is not allowed to perform this action"),
        );
    }
    Ok(actor)
}

/// What is done with the session that a token stands for.
#[derive(Debug)]
pub enum SessionStep {
    /// There is no such session.
    Anonymous,
    /// The account is gone, so the session is removed.
    Forget,
    /// The session is renewed with what is now known of the operator.
    Touch(SessionActor),
}

/// What is done with a session. `stored` is the account name that is stored
/// with it, where it was found.
pub fn session_step(
    provider: &AuthProvider,
    source: AccountsSource,
    stored: Option<&str>,
) -> (r: Result<SessionStep, AppError>)
    ensures
        match stored {
            None => r matches Ok(SessionStep::Anonymous),
            Some(username) => match provider.known_actor(source, username@) {
                Err(e) => r matches Err(f) && f@ == e,
                Ok(None) => r matches Ok(SessionStep::Forget),
                Ok(Some(a)) => r matches Ok(SessionStep::Touch(b)) && b@ == a,
            },
        },
{
    let username = match stored {
        Some(username) => username,
        None => return Ok(SessionStep::Anonymous),
    };
    match provider.resolve_actor(source, username) {
        Ok(Some(actor)) => Ok(SessionStep::Touch(actor)),
        Ok(None) => Ok(SessionStep::Forget),
        Err(e) => Err(e),
    }
}

// ---------------------------------------------------------------------------
// Tokens
// ---------------------------------------------------------------------------

/// The text encodes 32 bytes.
pub open spec fn is_session_token(s: Seq<char>) -> bool {
    exists|b: Seq<u8>| b.len() == 32 && s == #[trigger] crypto::base64url(b)
}

/// A new token, made of random bytes.
pub fn new_session_token() -> (r: String)
    ensures
        is_session_token(r@),
{
    let bytes = random_bytes();
    let token = encode_base64(bytes.as_slice());
    assert(bytes@.len() == 32);
    token
}

/// When a session that starts now ends.
pub fn session_expiry(now: Timestamp, session_ttl: u64) -> (r: Result<Timestamp, AppError>)
    requires
        session_ttl <= LONGEST_SPAN ==> now.secs() + session_ttl <= time::LAST_SECOND,
    ensures
        match r {
            Ok(t) => session_ttl <= LONGEST_SPAN && t.secs() == now.secs() + session_ttl
                && t.nanos() == time::nanos_after(now.nanos() as int, session_ttl as int),
            Err(e) => session_ttl > LONGEST_SPAN && e@ == error::plain(
                ErrorStatus::Internal,
                "Source duration value is out of range for the target type"@,
            ),
        },
{
    if session_ttl <= LONGEST_SPAN {
        if let Some(end) = now.later_by(session_ttl) {
            return Ok(end);
        }
    }
    Err(AppError::internal("Source duration value is out of range for the target type"))
}

// ---------------------------------------------------------------------------
// Cookies
// ---------------------------------------------------------------------------

/// The cookie that carries a token for some seconds; without one, the cookie
/// that removes it.
pub open spec fn cookie_text(
    name: Seq<char>,
    token: Option<(Seq<char>, nat)>,
    secure: bool,
) -> Seq<char> {
    let mark = if secure {
        "; Secure"@
    } else {
        Seq::<char>::empty()
    };
    match token {
        Some(t) => name + "="@ + t.0 + "; HttpOnly; Path=/; SameSite=Strict"@ + mark
            + "; Max-Age="@ + text::decimal(t.1),
        None => name + "=; HttpOnly; Path=/; SameSite=Strict"@ + mark + "; Max-Age=0"@,
    }
}

/// The cookie that carries a token for `max_age` seconds; where either is
/// missing, the cookie that removes it.
pub fn session_cookie_value(
    cookie_name: &str,
    token: Option<&str>,
    max_age: Option<u64>,
    secure: bool,
) -> (r: String)
    ensures
        r@ == cookie_text(
            cookie_name@,
            match (token, max_age) {
                (Some(t), Some(age)) => Some((t@, age as nat)),
                _ => None,
            },
            secure,
        ),
{
    let mark = if secure {
        "; Secure".to_string()
    } else {
        scan::empty_text()
    };
    if let Some(token) = token {
        if let Some(age) = max_age {
            let seconds = scan::decimal(age);
            return cookie_name.to_string().concat("=").concat(token).concat(
                "; HttpOnly; Path=/; SameSite=Strict",
            ).concat(mark.as_str()).concat("; Max-Age=").concat(seconds.as_str());
        }
    }
    cookie_name.to_string().concat("=; HttpOnly; Path=/; SameSite=Strict").concat(
        mark.as_str(),
    ).concat("; Max-Age=0")
}

/// The value in one segment of a cookie header, where the segment has the name.
pub open spec fn segment_value(segment: Seq<char>, name: Seq<char>) -> Option<Seq<char>> {
    let pair = text::trim(segment);
    match text::find_char(pair, '=') {
        Some(i) => if pair.take(i) == name {
            Some(pair.skip(i + 1))
        } else {
            None
        },
        None => None,
    }
}

/// The value of the first segment that has the name.
pub open spec fn first_value(segments: text::Texts, name: Seq<char>) -> Option<Seq<char>>
    decreases segments.len(),
{
    if segments.len() == 0 {
        None
    } else {
        text::or_else(
            segment_value(segments[0], name),
            first_value(segments.drop_first(), name),
        )
    }
}

/// The token in a cookie header.
pub open spec fn cookie_token(raw: Seq<char>, name: Seq<char>) -> Option<Seq<char>> {
    first_value(text::split_by(raw, text::just(';')), name)
}

fn value_of_segment(segment: &[char], name: &[char]) -> (r: Option<String>)
    ensures
        text::opt(r) == segment_value(segment@, name@),
{
    let pair = scan::trim(segment);
    match scan::find_char(pair, '=') {
        Some(i) => {
            assert(pair@.subrange(0, i as int) =~= pair@.take(i as int));
            if same(slice_subrange(pair, 0, i), name) {
                let end: usize = pair.len();
                let value = slice_subrange(pair, i + 1, end);
                assert(value@ =~= pair@.skip(i + 1));
                Some(text_of(value))
            } else {
                None
            }
        },
        None => None,
    }
}

/// The token in a cookie header.
pub fn session_token_from_headers(cookie_name: &str, raw_cookie: Option<&str>) -> (r: Option<
    String,
>)
    ensures
        text::opt(r) == match raw_cookie {
            Some(raw) => cookie_token(raw@, cookie_name@),
            None => None,
        },
{
    let raw = match raw_cookie {
        Some(raw) => raw,
        None => return None,
    };
    let name = chars_of(cookie_name);
    let segments = scan::split_by(chars_of(raw).as_slice(), &CharClass::Just(';'));
    let ghost model = scan::lists(segments@);
    assert(model == text::split_by(raw@, text::just(';')));
    assert(model.skip(0) =~= model);
    let mut i: usize = 0;
    while i < segments.len()
        invariant
            i <= segments@.len(),
            model == scan::lists(segments@),
            model == text::split_by(raw@, text::just(';')),
            raw_cookie == Some(raw),
            name@ == cookie_name@,
            first_value(model, name@) == first_value(model.skip(i as int), name@),
        decreases segments@.len() - i,
    {
        assert(model.skip(i as int).drop_first() =~= model.skip(i + 1));
        let value = value_of_segment(segments[i].as_slice(), name.as_slice());
        if value.is_some() {
            return value;
        }
        i += 1;
    }
    None
}

// ---------------------------------------------------------------------------
// Laws
// ---------------------------------------------------------------------------

proof fn lemma_split_append(a: Seq<char>, c: char, b: Seq<char>, f: text::CharPred)
    requires
        f(c),
    ensures
        text::split_by(a.push(c) + b, f) == text::split_by(a, f) + text::split_by(b, f),
    decreases b.len(),
{
    let s = a.push(c) + b;
    if b.len() == 0 {
        assert(s.drop_last() =~= a);
        assert(text::split_by(s, f) =~= text::split_by(a, f) + text::split_by(b, f));
    } else {
        lemma_split_append(a, c, b.drop_last(), f);
        text_lemmas::lemma_split_len(b.drop_last(), f);
        assert(s.drop_last() =~= a.push(c) + b.drop_last());
        assert(text::split_by(s, f) =~= text::split_by(a, f) + text::split_by(b, f));
    }
}

proof fn lemma_split_whole(s: Seq<char>, f: text::CharPred)
    requires
        forall|i: int| 0 <= i < s.len() ==> !f(#[trigger] s[i]),
    ensures
        text::split_by(s, f) == seq![s],
    decreases s.len(),
{
    if s.len() > 0 {
        assert forall|i: int| 0 <= i < s.len() - 1 implies !f(#[trigger] s.drop_last()[i]) by {
            assert(s.drop_last()[i] == s[i]);
        }
        lemma_split_whole(s.drop_last(), f);
        assert(s.drop_last().push(s.last()) =~= s);
        assert(text::split_by(s, f) =~= seq![s]);
    } else {
        assert(s =~= Seq::<char>::empty());
    }
}

proof fn lemma_first_value_append(a: text::Texts, b: text::Texts, name: Seq<char>)
    ensures
        first_value(a + b, name) == text::or_else(first_value(a, name), first_value(b, name)),
    decreases a.len(),
{
    if a.len() == 0 {
        assert(a + b =~= b);
    } else {
        assert((a + b).drop_first() =~= a.drop_first() + b);
        lemma_first_value_append(a.drop_first(), b, name);
    }
}

/// The name can be used for a cookie.
pub open spec fn is_cookie_name(name: Seq<char>) -> bool {
    !name.contains('=') && !name.contains(';') && (name.len() > 0 ==> !text::is_space(name[0]))
}

/// The value can be carried by a cookie.
pub open spec fn is_cookie_value(value: Seq<char>) -> bool {
    !value.contains(';') && (value.len() > 0 ==> !text::is_space(value.last()))
}

proof fn lemma_pair_value(pad: Seq<char>, name: Seq<char>, value: Seq<char>)
    requires
        pad.len() == 0 || pad == seq![' '],
        is_cookie_name(name),
        is_cookie_value(value),
    ensures
        segment_value(pad + (name.push('=') + value), name) == Some(value),
{
    let pair = name.push('=') + value;
    let segment = pad + pair;
    let f = text::space();
    assert(!f(pair[0])) by {
        if name.len() > 0 {
            assert(pair[0] == name[0]);
        }
    }
    assert(!f(pair.last())) by {
        if value.len() > 0 {
            assert(pair.last() == value.last());
        }
    }
    if pad.len() > 0 {
        assert(segment[0] == ' ');
        assert(segment[1] == pair[0]);
        text_lemmas::lemma_trim_start(segment, f, 1);
        assert(segment.skip(1) =~= pair);
    } else {
        assert(segment =~= pair);
        text_lemmas::lemma_trim_start(segment, f, 0);
        assert(segment.skip(0) =~= pair);
    }
    text_lemmas::lemma_trim_end(pair, f, pair.len() as int);
    assert(pair.take(pair.len() as int) =~= pair);
    assert(text::trim(segment) == pair);
    assert forall|j: int| 0 <= j < name.len() implies pair[j] != '=' by {
        assert(pair[j] == name[j]);
    }
    text_lemmas::lemma_find_char_is(pair, '=', name.len() as int);
    assert(pair.take(name.len() as int) =~= name);
    assert(pair.skip(name.len() as int + 1) =~= value);
}

proof fn lemma_pair_is_whole(pad: Seq<char>, name: Seq<char>, value: Seq<char>)
    requires
        pad.len() == 0 || pad == seq![' '],
        is_cookie_name(name),
        is_cookie_value(value),
    ensures
        text::split_by(pad + (name.push('=') + value), text::just(';')) == seq![
            pad + (name.push('=') + value),
        ],
{
    let segment = pad + (name.push('=') + value);
    let f = text::just(';');
    assert forall|i: int| 0 <= i < segment.len() implies !f(#[trigger] segment[i]) by {
        let k = i - pad.len();
        if 0 <= k < name.len() {
            assert(segment[i] == name[k]);
        } else if k > name.len() {
            assert(segment[i] == value[k - name.len() - 1]);
        }
    }
    lemma_split_whole(segment, f);
}

/// What a cookie carries is read back, whether it stands alone, before other
/// cookies, or after others that do not have its name.
pub proof fn law_cookie_comes_back(
    name: Seq<char>,
    value: Seq<char>,
    before: Seq<char>,
    after: Seq<char>,
)
    requires
        is_cookie_name(name),
        is_cookie_value(value),
    ensures
        cookie_token(name.push('=') + value, name) == Some(value),
        cookie_token((name.push('=') + value).push(';') + after, name) == Some(value),
        cookie_token(before, name) is None ==> cookie_token(
            before.push(';') + (seq![' '] + (name.push('=') + value)),
            name,
        ) == Some(value),
{
    let f = text::just(';');
    let none = Seq::<char>::empty();
    let pair = name.push('=') + value;
    assert(none + pair =~= pair);
    lemma_pair_value(none, name, value);
    lemma_pair_is_whole(none, name, value);
    assert(seq![pair].drop_first() =~= Seq::empty());
    assert(first_value(seq![pair], name) == Some(value));
    lemma_split_append(pair, ';', after, f);
    lemma_first_value_append(seq![pair], text::split_by(after, f), name);
    let padded = seq![' '] + pair;
    lemma_pair_value(seq![' '], name, value);
    lemma_pair_is_whole(seq![' '], name, value);
    assert(seq![padded].drop_first() =~= Seq::empty());
    assert(first_value(seq![padded], name) == Some(value));
    lemma_split_append(before, ';', padded, f);
    lemma_first_value_append(text::split_by(before, f), seq![padded], name);
}

proof fn lemma_token_chars(b: Seq<u8>)
    ensures
        forall|i: int|
            0 <= i < crypto::base64url(b).len() ==> (#[trigger] crypto::base64url(b)[i]) != ';'
                && !text::is_space(crypto::base64url(b)[i]),
    decreases b.len(),
{
    if b.len() >= 3 {
        let rest = crypto::base64url(b.skip(3));
        lemma_token_chars(b.skip(3));
        assert forall|i: int| 0 <= i < crypto::base64url(b).len() implies (
        #[trigger] crypto::base64url(b)[i]) != ';' && !text::is_space(
            crypto::base64url(b)[i],
        ) by {
            if i >= 4 {
                assert(crypto::base64url(b)[i] == rest[i - 4]);
            }
        }
    }
}

/// The token of a new session is read back from the cookie that sets it.
pub proof fn law_session_cookie_comes_back(
    name: Seq<char>,
    token: Seq<char>,
    age: nat,
    secure: bool,
)
    requires
        is_cookie_name(name),
        is_session_token(token),
    ensures
        cookie_token(cookie_text(name, Some((token, age)), secure), name) == Some(token),
{
    let b = choose|b: Seq<u8>| b.len() == 32 && token == #[trigger] crypto::base64url(b);
    lemma_token_chars(b);
    assert(!token.contains(';'));
    reveal_strlit("=");
    reveal_strlit("; HttpOnly; Path=/; SameSite=Strict");
    let whole = cookie_text(name, Some((token, age)), secure);
    let head = "; HttpOnly; Path=/; SameSite=Strict"@;
    let pair = name.push('=') + token;
    let after = whole.skip(pair.len() as int + 1);
    assert(head[0] == ';');
    assert(name + "="@ + token =~= pair);
    assert(whole =~= pair.push(';') + after);
    law_cookie_comes_back(name, token, Seq::empty(), after);
}

/// A request is let through exactly where nobody has to sign in, or where the
/// operator of the session has the permissions of the required role.
pub proof fn law_access_follows_permissions(
    enabled: bool,
    actor: Option<ActorView>,
    required: AuthRole,
)
    ensures
        authorized(enabled, actor, required) is Ok <==> (!enabled || (actor matches Some(a)
            && forall|p: AuthPermission| #[trigger]
            auth::role_permissions(required).contains(p) ==> auth::role_permissions(
                a.role,
            ).contains(p))),
{
    if let Some(a) = actor {
        auth::law_roles_are_ordered(a.role, required);
    }
}

} // verus!
