//! Who may use the API, and what for.

use crate::config;
use crate::config::parse_unsigned;
use crate::error;
use crate::error::{AppError, ErrorStatus, ErrorView};
use crate::scan;
use crate::scan::{chars_of, same_text, text_of, trim_text, CharClass};
use crate::text;
use argon2::password_hash::{PasswordHash, PasswordVerifier};
use argon2::Argon2;
use vstd::prelude::*;
use vstd::slice::slice_subrange;

verus! {

/// The account name of the shared password.
pub const LEGACY_ADMIN_USERNAME: &'static str = "legacy-admin";

/// How operators show who they are.
#[derive(Clone, Copy, Debug, PartialEq, Eq, Structural)]
pub enum AuthMode {
    /// Not at all.
    Disabled,
    /// With one password for all.
    LegacySharedPassword,
    /// With accounts of their own.
    LocalAccounts,
}

/// The role of an operator.
#[derive(Clone, Copy, Debug, PartialEq, Eq, Structural)]
pub enum AuthRole {
    /// May look.
    Viewer,
    /// May also give work.
    Operator,
    /// May also decide on trust.
    Admin,
}

/// What a role permits.
#[derive(Clone, Copy, Debug, PartialEq, Eq, Structural)]
pub enum AuthPermission {
    /// Looking.
    View,
    /// Giving work.
    Operate,
    /// Deciding on trust.
    Admin,
}

/// The place of a role in their order.
pub open spec fn role_rank(role: AuthRole) -> int {
    match role {
        AuthRole::Viewer => 1,
        AuthRole::Operator => 2,
        AuthRole::Admin => 3,
    }
}

/// What a role permits.
pub open spec fn role_permissions(role: AuthRole) -> Seq<AuthPermission> {
    match role {
        AuthRole::Viewer => seq![AuthPermission::View],
        AuthRole::Operator => seq![AuthPermission::View, AuthPermission::Operate],
        AuthRole::Admin => seq![
            AuthPermission::View,
            AuthPermission::Operate,
            AuthPermission::Admin,
        ],
    }
}

/// The name of a role.
pub open spec fn role_name(role: AuthRole) -> Seq<char> {
    match role {
        AuthRole::Viewer => "viewer"@,
        AuthRole::Operator => "operator"@,
        AuthRole::Admin => "admin"@,
    }
}

/// The role that a text names, whatever its case.
pub open spec fn named_role(value: Seq<char>) -> Option<AuthRole> {
    let name = text::lower(text::trim(value));
    if name == "viewer"@ {
        Some(AuthRole::Viewer)
    } else if name == "operator"@ {
        Some(AuthRole::Operator)
    } else if name == "admin"@ {
        Some(AuthRole::Admin)
    } else {
        None
    }
}

impl AuthRole {
    /// The place of the role in their order.
    pub fn rank(&self) -> (r: u8)
        ensures
            r == role_rank(*self),
    {
        match self {
            AuthRole::Viewer => 1,
            AuthRole::Operator => 2,
            AuthRole::Admin => 3,
        }
    }

    /// Whether the role is at least the required one.
    pub fn allows(&self, required: &AuthRole) -> (r: bool)
        ensures
            r == (role_rank(*self) >= role_rank(*required)),
    {
        self.rank() >= required.rank()
    }

    /// What the role permits.
    pub fn permissions(&self) -> (r: Vec<AuthPermission>)
        ensures
            r@ == role_permissions(*self),
    {
        match self {
            AuthRole::Viewer => vec![AuthPermission::View],
            AuthRole::Operator => vec![AuthPermission::View, AuthPermission::Operate],
            AuthRole::Admin => vec![
                AuthPermission::View,
                AuthPermission::Operate,
                AuthPermission::Admin,
            ],
        }
    }

    /// The role that a text names, or what is wrong with it.
    pub fn parse(value: &str) -> (r: Result<AuthRole, String>)
        ensures
            match r {
                Ok(role) => named_role(value@) == Some(role),
                Err(message) => named_role(value@) is None && message@
                    == "unsupported auth role `"@ + text::lower(text::trim(value@)) + "`"@,
            },
    {
        let name = scan::lower_text(trim_text(value).as_str());
        if same_text(name.as_str(), "viewer") {
            Ok(AuthRole::Viewer)
        } else if same_text(name.as_str(), "operator") {
            Ok(AuthRole::Operator)
        } else if same_text(name.as_str(), "admin") {
            Ok(AuthRole::Admin)
        } else {
            Err("unsupported auth role `".to_string().concat(name.as_str()).concat("`"))
        }
    }
}

/// The name under which a role is stored.
pub fn actor_role_value(role: &AuthRole) -> (r: &'static str)
    ensures
        r@ == role_name(*role),
{
    match role {
        AuthRole::Viewer => "viewer",
        AuthRole::Operator => "operator",
        AuthRole::Admin => "admin",
    }
}

/// The operator behind a session.
#[derive(Debug, PartialEq, Eq)]
pub struct SessionActor {
    pub username: String,
    pub display_name: String,
    pub role: AuthRole,
}

/// The model of an operator.
pub struct ActorView {
    pub username: Seq<char>,
    pub display_name: Seq<char>,
    pub role: AuthRole,
}

impl View for SessionActor {
    type V = ActorView;

    open spec fn view(&self) -> ActorView {
        ActorView {
            username: self.username@,
            display_name: self.display_name@,
            role: self.role,
        }
    }
}

impl SessionActor {
    /// What the operator may do.
    pub fn permissions(&self) -> (r: Vec<AuthPermission>)
        ensures
            r@ == role_permissions(self.role),
    {
        self.role.permissions()
    }

    /// A copy.
    pub fn copy(&self) -> (r: SessionActor)
        ensures
            r@ == self@,
    {
        SessionActor {
            username: self.username.clone(),
            display_name: self.display_name.clone(),
            role: self.role,
        }
    }
}

/// The model of an operator that may be absent.
pub open spec fn opt_actor(actor: Option<SessionActor>) -> Option<ActorView> {
    match actor {
        Some(a) => Some(a@),
        None => None,
    }
}

/// The model of an answer about an operator.
pub open spec fn actor_result(r: Result<SessionActor, AppError>) -> Result<ActorView, ErrorView> {
    match r {
        Ok(a) => Ok(a@),
        Err(e) => Err(e@),
    }
}

/// The model of an answer about an operator that may be unknown.
pub open spec fn opt_actor_result(r: Result<Option<SessionActor>, AppError>) -> Result<
    Option<ActorView>,
    ErrorView,
> {
    match r {
        Ok(a) => Ok(opt_actor(a)),
        Err(e) => Err(e@),
    }
}

// ---------------------------------------------------------------------------
// Passwords
// ---------------------------------------------------------------------------

/// What `argon2::password_hash::PasswordHash::new` says is wrong with a hash;
/// `None` where it takes it.
pub uninterp spec fn hash_error(hash: Seq<char>) -> Option<Seq<char>>;

/// The parts of a hash that `argon2::password_hash::PasswordHash::new` takes: the
/// text of its parameters, and whether it has a salt and an output.
pub uninterp spec fn hash_parts(hash: Seq<char>) -> (Seq<char>, bool, bool);

/// What `argon2::Argon2::verify_password` says of a password: whether it is the
/// one of the hash, or why it could not tell.
pub uninterp spec fn hash_verdict(hash: Seq<char>, password: Seq<char>) -> Result<bool, Seq<char>>;

/// Calls `argon2::password_hash::PasswordHash::new` and gives the text of its
/// error, where there is one. The answer depends on the hash alone.
#[verifier::external_body]
fn hash_problem(hash: &str) -> (r: Option<String>)
    ensures
        text::opt(r) == hash_error(hash@),
{
    match PasswordHash::new(hash) {
        Ok(_) => None,
        Err(error) => Some(error.to_string()),
    }
}

/// Calls `argon2::password_hash::PasswordHash::new` and gives what it found: the
/// parameters, as `ParamsString::as_str` writes them, and whether there are a
/// salt and an output. All of it depends on the hash alone.
#[verifier::external_body]
fn parts_of(hash: &str) -> (r: (String, bool, bool))
    requires
        hash_error(hash@) is None,
    ensures
        (r.0@, r.1, r.2) == hash_parts(hash@),
{
    let parsed = PasswordHash::new(hash).expect("the hash is well formed");
    (parsed.params.as_str().to_string(), parsed.salt.is_some(), parsed.hash.is_some())
}

/// Fewest lanes of which eight times as many do not fit in 32 bits.
pub const LANES_LIMIT: u64 = 0x2000_0000;

/// Most that a parameter can be.
pub const PARAMETER_MAX: u64 = 0xffff_ffff;

/// The value of the last parameter `p`, the number of lanes.
pub open spec fn last_lanes(pairs: text::Texts) -> Option<Seq<char>>
    decreases pairs.len(),
{
    if pairs.len() == 0 {
        None
    } else if text::starts_with(pairs.last(), "p="@) {
        Some(pairs.last().skip(2))
    } else {
        last_lanes(pairs.drop_last())
    }
}

/// The text is a number of lanes that is a parameter, and too large to compute
/// with.
pub open spec fn is_lanes_overflow(value: Seq<char>) -> bool {
    exists|n: nat| LANES_LIMIT <= n <= PARAMETER_MAX && value == #[trigger] text::decimal(n)
}

/// The parameters ask for more lanes than can be computed with.
pub open spec fn too_many_lanes(params: Seq<char>) -> bool {
    last_lanes(text::split_by(params, text::just(','))) matches Some(value) && is_lanes_overflow(
        value,
    )
}

/// Whether the parameters ask for more lanes than can be computed with.
pub fn lanes_overflow(params: &str) -> (r: bool)
    ensures
        r == too_many_lanes(params@),
{
    proof {
        reveal_strlit("p=");
    }
    let pairs = scan::split_by(chars_of(params).as_slice(), &CharClass::Just(','));
    let ghost model = text::split_by(params@, text::just(','));
    let prefix = chars_of("p=");
    let mut n: usize = pairs.len();
    assert(model.take(n as int) =~= model);
    while n > 0
        invariant
            n <= pairs@.len(),
            model == text::split_by(params@, text::just(',')),
            scan::lists(pairs@) == model,
            prefix@ == "p="@,
            prefix@.len() == 2,
            last_lanes(model) == last_lanes(model.take(n as int)),
        decreases n,
    {
        assert(model.take(n as int).drop_last() =~= model.take(n - 1));
        let pair = pairs[n - 1].as_slice();
        assert(pair@ == model[n - 1]);
        if scan::starts_with(pair, prefix.as_slice()) {
            let tail = slice_subrange(pair, 2, pair.len());
            assert(tail@ =~= pair@.skip(2));
            return is_large(text_of(tail).as_str());
        }
        n -= 1;
    }
    false
}

fn is_large(value: &str) -> (r: bool)
    ensures
        r == is_lanes_overflow(value@),
{
    match parse_unsigned(value, PARAMETER_MAX) {
        Some(n) => {
            let same = same_text(scan::decimal(n).as_str(), value);
            proof {
                if is_lanes_overflow(value@) {
                    lemma_large(value@);
                }
            }
            n >= LANES_LIMIT && same
        },
        None => {
            proof {
                if is_lanes_overflow(value@) {
                    lemma_large(value@);
                }
            }
            false
        },
    }
}

proof fn lemma_large(value: Seq<char>)
    requires
        is_lanes_overflow(value),
    ensures
        exists|n: nat|
            LANES_LIMIT <= n <= PARAMETER_MAX && value == #[trigger] text::decimal(n)
                && config::unsigned_value(value, PARAMETER_MAX as nat) == Some(n),
{
    let n = choose|n: nat|
        LANES_LIMIT <= n <= PARAMETER_MAX && value == #[trigger] text::decimal(n);
    config::law_number_comes_back(n, PARAMETER_MAX as nat);
}

/// A hash of these parts cannot be computed: it is complete, and asks for too
/// many lanes.
pub open spec fn is_out_of_range(parts: (Seq<char>, bool, bool)) -> bool {
    parts.1 && parts.2 && too_many_lanes(parts.0)
}

/// Calls `argon2::Argon2::verify_password` with the default parameters, which
/// those in the hash override. The answer depends on the hash and the password
/// alone. Left out are the hashes of which it multiplies the lanes by eight
/// without room for the product. The memory that the hash asks for has to be
/// there.
#[verifier::external_body]
fn verify_hash(hash: &str, password: &str) -> (r: Result<bool, String>)
    requires
        hash_error(hash@) is None,
        !is_out_of_range(hash_parts(hash@)),
    ensures
        match r {
            Ok(same) => hash_verdict(hash@, password@) == Ok::<bool, Seq<char>>(same),
            Err(message) => hash_verdict(hash@, password@) == Err::<bool, Seq<char>>(message@),
        },
{
    let parsed = PasswordHash::new(hash).expect("the hash is well formed");
    match Argon2::default().verify_password(password.as_bytes(), &parsed) {
        Ok(_) => Ok(true),
        Err(argon2::password_hash::Error::Password) => Ok(false),
        Err(error) => Err(error.to_string()),
    }
}

// ---------------------------------------------------------------------------
// Accounts
// ---------------------------------------------------------------------------

/// An account as it is configured.
#[derive(Debug)]
pub struct LocalAccountConfig {
    pub username: String,
    pub display_name: Option<String>,
    pub role: AuthRole,
    pub password_hash: String,
    pub disabled: bool,
}

/// An account that can be used.
#[derive(Debug)]
pub struct LocalAccount {
    pub username: String,
    pub display_name: String,
    pub role: AuthRole,
    pub password_hash: String,
    pub disabled: bool,
}

/// The model of an account.
pub struct AccountView {
    pub username: Seq<char>,
    pub display_name: Seq<char>,
    pub role: AuthRole,
    pub password_hash: Seq<char>,
    pub disabled: bool,
}

impl View for LocalAccount {
    type V = AccountView;

    open spec fn view(&self) -> AccountView {
        AccountView {
            username: self.username@,
            display_name: self.display_name@,
            role: self.role,
            password_hash: self.password_hash@,
            disabled: self.disabled,
        }
    }
}

/// The operator of an account.
pub open spec fn account_actor(a: AccountView) -> ActorView {
    ActorView { username: a.username, display_name: a.display_name, role: a.role }
}

impl LocalAccount {
    /// The operator of the account.
    pub fn actor(self) -> (r: SessionActor)
        ensures
            r@ == account_actor(self@),
    {
        SessionActor {
            username: self.username,
            display_name: self.display_name,
            role: self.role,
        }
    }
}

/// The models of a list of accounts.
pub open spec fn account_views(list: Seq<LocalAccount>) -> Seq<AccountView> {
    list.map_values(|a: LocalAccount| a@)
}

/// The account that a configuration stands for.
pub open spec fn account_of(c: LocalAccountConfig) -> AccountView {
    AccountView {
        username: text::trim(c.username@),
        display_name: text::or_value(
            text::present(text::opt(c.display_name)),
            text::trim(c.username@),
        ),
        role: c.role,
        password_hash: c.password_hash@,
        disabled: c.disabled,
    }
}

/// The account is there.
pub open spec fn has_account(list: Seq<AccountView>, username: Seq<char>) -> bool {
    exists|i: int| 0 <= i < list.len() && (#[trigger] list[i]).username == username
}

/// A fault of the configuration at `path`.
pub open spec fn config_fault(path: Seq<char>, fault: Seq<char>) -> ErrorView {
    error::plain(ErrorStatus::Internal, "UI auth config `"@ + path + "` "@ + fault)
}

/// The accounts of a configuration; the first fault is an error.
pub open spec fn accounts_of(configs: Seq<LocalAccountConfig>, path: Seq<char>) -> Result<
    Seq<AccountView>,
    ErrorView,
>
    decreases configs.len(),
{
    if configs.len() == 0 {
        Ok(Seq::empty())
    } else {
        match accounts_of(configs.drop_last(), path) {
            Ok(list) => {
                let account = account_of(configs.last());
                if account.username.len() == 0 {
                    Err(config_fault(path, "contains an empty username"@))
                } else if has_account(list, account.username) {
                    Err(
                        config_fault(
                            path,
                            "contains duplicate username `"@ + account.username + "`"@,
                        ),
                    )
                } else {
                    Ok(list.push(account))
                }
            },
            Err(e) => Err(e),
        }
    }
}

/// The accounts of a configuration, which must not be empty.
pub open spec fn loaded_accounts(configs: Seq<LocalAccountConfig>, path: Seq<char>) -> Result<
    Seq<AccountView>,
    ErrorView,
> {
    if configs.len() == 0 {
        Err(config_fault(path, "does not define any accounts"@))
    } else {
        accounts_of(configs, path)
    }
}

proof fn lemma_first_fault(configs: Seq<LocalAccountConfig>, path: Seq<char>, n: int, e: ErrorView)
    requires
        0 <= n <= configs.len(),
        accounts_of(configs.take(n), path) == Err::<Seq<AccountView>, ErrorView>(e),
    ensures
        accounts_of(configs, path) == Err::<Seq<AccountView>, ErrorView>(e),
    decreases configs.len() - n,
{
    if n < configs.len() {
        assert(configs.take(n + 1).drop_last() =~= configs.take(n));
        lemma_first_fault(configs, path, n + 1, e);
    } else {
        assert(configs.take(n) =~= configs);
    }
}

fn account_index(accounts: &Vec<LocalAccount>, username: &str) -> (r: Option<usize>)
    ensures
        match r {
            Some(i) => is_account(account_views(accounts@), username@, i as int),
            None => !has_account(account_views(accounts@), username@),
        },
{
    let ghost model = account_views(accounts@);
    let mut i: usize = 0;
    while i < accounts.len()
        invariant
            i <= accounts@.len(),
            model == account_views(accounts@),
            forall|j: int| 0 <= j < i ==> (#[trigger] model[j]).username != username@,
        decreases accounts@.len() - i,
    {
        if same_text(accounts[i].username.as_str(), username) {
            assert(model[i as int].username == username@);
            return Some(i);
        }
        i += 1;
    }
    None
}

/// The first account with a name.
pub open spec fn is_account(list: Seq<AccountView>, username: Seq<char>, i: int) -> bool {
    0 <= i < list.len() && list[i].username == username && forall|j: int|
        0 <= j < i ==> (#[trigger] list[j]).username != username
}

/// The accounts of a configuration.
pub fn load_accounts(configs: Vec<LocalAccountConfig>, path: &str) -> (r: Result<
    Vec<LocalAccount>,
    AppError,
>)
    ensures
        match r {
            Ok(list) => loaded_accounts(configs@, path@) == Ok::<Seq<AccountView>, ErrorView>(
                account_views(list@),
            ),
            Err(e) => loaded_accounts(configs@, path@) == Err::<Seq<AccountView>, ErrorView>(e@),
        },
{
    let prefix = "UI auth config `".to_string().concat(path).concat("` ");
    if configs.len() == 0 {
        return Err(
            AppError::internal(prefix.concat("does not define any accounts").as_str()),
        );
    }
    let mut accounts: Vec<LocalAccount> = Vec::new();
    let mut i: usize = 0;
    assert(account_views(accounts@) =~= Seq::empty());
    while i < configs.len()
        invariant
            i <= configs@.len(),
            configs@.len() > 0,
            prefix@ == "UI auth config `"@ + path@ + "` "@,
            accounts_of(configs@.take(i as int), path@) == Ok::<Seq<AccountView>, ErrorView>(
                account_views(accounts@),
            ),
        decreases configs@.len() - i,
    {
        assert(configs@.take(i + 1).drop_last() =~= configs@.take(i as int));
        let ghost before = account_views(accounts@);
        let config = &configs[i];
        let username = trim_text(config.username.as_str());
        if chars_of(username.as_str()).len() == 0 {
            let e = AppError::internal(prefix.concat("contains an empty username").as_str());
            proof {
                lemma_first_fault(configs@, path@, i + 1, e@);
            }
            return Err(e);
        }
        if account_index(&accounts, username.as_str()).is_some() {
            let fault = "contains duplicate username `".to_string().concat(
                username.as_str(),
            ).concat("`");
            let e = AppError::internal(prefix.concat(fault.as_str()).as_str());
            proof {
                assert(has_account(before, username@));
                lemma_first_fault(configs@, path@, i + 1, e@);
            }
            return Err(e);
        }
        let display_name = match &config.display_name {
            Some(value) => {
                let trimmed = trim_text(value.as_str());
                if chars_of(trimmed.as_str()).len() > 0 {
                    trimmed
                } else {
                    username.clone()
                }
            },
            None => username.clone(),
        };
        let account = LocalAccount {
            username,
            display_name,
            role: config.role,
            password_hash: config.password_hash.clone(),
            disabled: config.disabled,
        };
        accounts.push(account);
        assert(account_views(accounts@) =~= before.push(account@));
        i += 1;
    }
    assert(configs@.take(i as int) =~= configs@);
    Ok(accounts)
}

/// What was read of the configured accounts.
#[derive(Debug)]
pub enum AccountsSource {
    /// The accounts.
    Loaded(Vec<LocalAccountConfig>),
    /// Why they could not be read.
    Failed(AppError),
}

/// The accounts that were read.
pub open spec fn source_accounts(source: AccountsSource, path: Seq<char>) -> Result<
    Seq<AccountView>,
    ErrorView,
> {
    match source {
        AccountsSource::Loaded(configs) => loaded_accounts(configs@, path),
        AccountsSource::Failed(e) => Err(e@),
    }
}

fn read_accounts(source: AccountsSource, path: &str) -> (r: Result<Vec<LocalAccount>, AppError>)
    ensures
        match r {
            Ok(list) => source_accounts(source, path@) == Ok::<Seq<AccountView>, ErrorView>(
                account_views(list@),
            ),
            Err(e) => source_accounts(source, path@) == Err::<Seq<AccountView>, ErrorView>(e@),
        },
{
    match source {
        AccountsSource::Loaded(configs) => load_accounts(configs, path),
        AccountsSource::Failed(e) => Err(e),
    }
}

// ---------------------------------------------------------------------------
// Providers
// ---------------------------------------------------------------------------

/// One password for all operators.
#[derive(Debug)]
pub struct LegacySharedPasswordProvider {
    pub password: String,
    pub display_name: String,
}

impl LegacySharedPasswordProvider {
    /// The operator that the password stands for.
    pub open spec fn shared_actor(self) -> ActorView {
        ActorView {
            username: LEGACY_ADMIN_USERNAME@,
            display_name: self.display_name@,
            role: AuthRole::Admin,
        }
    }

    /// The operator, where the password is the right one.
    pub fn authenticate(&self, password: &str) -> (r: Result<SessionActor, AppError>)
        ensures
            actor_result(r) == if password@ == self.password@ {
                Ok::<ActorView, ErrorView>(self.shared_actor())
            } else {
                Err(error::plain(ErrorStatus::Unauthorized, "invalid password"@))
            },
    {
        if !same_text(password, self.password.as_str()) {
            return Err(AppError::unauthorized("invalid password"));
        }
        Ok(self.actor())
    }

    /// The operator with a name, where it is the one of the shared password.
    pub fn resolve_actor(&self, username: &str) -> (r: Option<SessionActor>)
        ensures
            opt_actor(r) == if username@ == LEGACY_ADMIN_USERNAME@ {
                Some(self.shared_actor())
            } else {
                None
            },
    {
        if same_text(username, LEGACY_ADMIN_USERNAME) {
            Some(self.actor())
        } else {
            None
        }
    }

    /// The operator that the password stands for.
    pub fn actor(&self) -> (r: SessionActor)
        ensures
            r@ == self.shared_actor(),
    {
        SessionActor {
            username: LEGACY_ADMIN_USERNAME.to_string(),
            display_name: self.display_name.clone(),
            role: AuthRole::Admin,
        }
    }
}

/// The refusal that does not tell what was wrong.
pub open spec fn bad_login() -> ErrorView {
    error::plain(ErrorStatus::Unauthorized, "invalid username or password"@)
}

/// The error for an account whose hash cannot be used.
pub open spec fn invalid_hash(username: Seq<char>, problem: Seq<char>) -> ErrorView {
    error::plain(
        ErrorStatus::Internal,
        "invalid password hash for account `"@ + username + "`: "@ + problem,
    )
}

/// The error for an account whose password could not be verified.
pub open spec fn unverified(username: Seq<char>, message: Seq<char>) -> ErrorView {
    error::plain(
        ErrorStatus::Internal,
        "failed to verify password for account `"@ + username + "`: "@ + message,
    )
}

/// What a password gives access to.
pub open spec fn password_result(a: AccountView, password: Seq<char>) -> Result<
    ActorView,
    ErrorView,
> {
    match hash_error(a.password_hash) {
        Some(problem) => Err(invalid_hash(a.username, problem)),
        None => if is_out_of_range(hash_parts(a.password_hash)) {
            Err(unverified(a.username, "too many lanes"@))
        } else {
            match hash_verdict(a.password_hash, password) {
                Ok(same) => if same {
                    Ok(account_actor(a))
                } else {
                    Err(bad_login())
                },
                Err(message) => Err(unverified(a.username, message)),
            }
        },
    }
}

/// What a name and a password give access to, among these accounts.
pub open spec fn login_result(
    accounts: Seq<AccountView>,
    username: Seq<char>,
    password: Seq<char>,
) -> Result<ActorView, ErrorView> {
    if exists|i: int| #[trigger] is_account(accounts, username, i) {
        let i = choose|i: int| #[trigger] is_account(accounts, username, i);
        if accounts[i].disabled {
            Err(bad_login())
        } else {
            password_result(accounts[i], password)
        }
    } else {
        Err(bad_login())
    }
}

proof fn lemma_account_is_unique(accounts: Seq<AccountView>, username: Seq<char>, i: int, k: int)
    requires
        is_account(accounts, username, i),
        is_account(accounts, username, k),
    ensures
        i == k,
{
    if i < k {
        assert(accounts[i].username != username);
    }
    if k < i {
        assert(accounts[k].username != username);
    }
}

/// What a password gives access to.
pub fn check_password(account: LocalAccount, password: &str) -> (r: Result<SessionActor, AppError>)
    ensures
        actor_result(r) == password_result(account@, password@),
{
    if let Some(problem) = hash_problem(account.password_hash.as_str()) {
        return Err(broken_hash(account.username.as_str(), problem.as_str()));
    }
    let (params, has_salt, has_output) = parts_of(account.password_hash.as_str());
    let verdict = if has_salt && has_output && lanes_overflow(params.as_str()) {
        Err("too many lanes".to_string())
    } else {
        verify_hash(account.password_hash.as_str(), password)
    };
    grant_access(account, verdict)
}

/// The error for an account whose hash cannot be used.
pub fn broken_hash(username: &str, problem: &str) -> (r: AppError)
    ensures
        r@ == invalid_hash(username@, problem@),
{
    AppError::internal(
        "invalid password hash for account `".to_string().concat(username).concat("`: ").concat(
            problem,
        ).as_str(),
    )
}

/// What the verdict on a password gives access to.
pub fn grant_access(account: LocalAccount, verdict: Result<bool, String>) -> (r: Result<
    SessionActor,
    AppError,
>)
    ensures
        actor_result(r) == match verdict {
            Ok(same) => if same {
                Ok::<ActorView, ErrorView>(account_actor(account@))
            } else {
                Err(bad_login())
            },
            Err(message) => Err(unverified(account.username@, message@)),
        },
{
    match verdict {
        Ok(same) => {
            if same {
                Ok(account.actor())
            } else {
                Err(AppError::unauthorized("invalid username or password"))
            }
        },
        Err(message) => Err(
            AppError::internal(
                "failed to verify password for account `".to_string().concat(
                    account.username.as_str(),
                ).concat("`: ").concat(message.as_str()).as_str(),
            ),
        ),
    }
}

/// Accounts of their own for the operators.
#[derive(Debug)]
pub struct LocalAccountsProvider {
    pub path: String,
}

impl LocalAccountsProvider {
    /// What a name and a password give access to.
    pub open spec fn login(
        self,
        source: AccountsSource,
        username: Option<Seq<char>>,
        password: Seq<char>,
    ) -> Result<ActorView, ErrorView> {
        match text::present(username) {
            None => Err(error::plain(ErrorStatus::BadRequest, "username is required"@)),
            Some(name) => match source_accounts(source, self.path@) {
                Err(e) => Err(e),
                Ok(accounts) => login_result(accounts, name, password),
            },
        }
    }

    /// The operator with a name that is not disabled.
    pub open spec fn lookup(self, source: AccountsSource, username: Seq<char>) -> Result<
        Option<ActorView>,
        ErrorView,
    > {
        match source_accounts(source, self.path@) {
            Err(e) => Err(e),
            Ok(accounts) => Ok(enabled_actor(accounts, username)),
        }
    }

    /// What a name and a password give access to.
    pub fn authenticate(&self, source: AccountsSource, username: Option<&str>, password: &str) -> (r:
        Result<SessionActor, AppError>)
        ensures
            actor_result(r) == self.login(source, text::opt_str(username), password@),
    {
        let name = match username {
            Some(value) => trim_text(value),
            None => return Err(AppError::bad_request("username is required")),
        };
        if chars_of(name.as_str()).len() == 0 {
            return Err(AppError::bad_request("username is required"));
        }
        let mut accounts = match read_accounts(source, self.path.as_str()) {
            Ok(accounts) => accounts,
            Err(e) => return Err(e),
        };
        let ghost model = account_views(accounts@);
        match account_index(&accounts, name.as_str()) {
            Some(i) => {
                proof {
                    let k = choose|k: int| #[trigger] is_account(model, name@, k);
                    lemma_account_is_unique(model, name@, i as int, k);
                }
                let account = accounts.swap_remove(i);
                assert(account@ == model[i as int]);
                if account.disabled {
                    return Err(AppError::unauthorized("invalid username or password"));
                }
                check_password(account, password)
            },
            None => {
                assert(!exists|k: int| #[trigger] is_account(model, name@, k)) by {
                    if exists|k: int| #[trigger] is_account(model, name@, k) {
                        let k = choose|k: int| #[trigger] is_account(model, name@, k);
                        assert(model[k].username == name@);
                    }
                }
                Err(AppError::unauthorized("invalid username or password"))
            },
        }
    }

    /// The operator with a name that is not disabled.
    pub fn resolve_actor(&self, source: AccountsSource, username: &str) -> (r: Result<
        Option<SessionActor>,
        AppError,
    >)
        ensures
            opt_actor_result(r) == self.lookup(source, username@),
    {
        let accounts = match read_accounts(source, self.path.as_str()) {
            Ok(accounts) => accounts,
            Err(e) => return Err(e),
        };
        Ok(find_enabled(accounts, username))
    }
}

/// The operator of the first account with a name that is not disabled.
pub open spec fn enabled_actor(accounts: Seq<AccountView>, username: Seq<char>) -> Option<ActorView>
    decreases accounts.len(),
{
    if accounts.len() == 0 {
        None
    } else if accounts[0].username == username && !accounts[0].disabled {
        Some(account_actor(accounts[0]))
    } else {
        enabled_actor(accounts.drop_first(), username)
    }
}

fn find_enabled(accounts: Vec<LocalAccount>, username: &str) -> (r: Option<SessionActor>)
    ensures
        opt_actor(r) == enabled_actor(account_views(accounts@), username@),
{
    let ghost model = account_views(accounts@);
    let mut i: usize = 0;
    assert(model.skip(0) =~= model);
    while i < accounts.len()
        invariant
            i <= accounts@.len(),
            model == account_views(accounts@),
            enabled_actor(model, username@) == enabled_actor(model.skip(i as int), username@),
        decreases accounts@.len() - i,
    {
        assert(model.skip(i as int).drop_first() =~= model.skip(i + 1));
        let account = &accounts[i];
        if same_text(account.username.as_str(), username) && !account.disabled {
            return Some(
                SessionActor {
                    username: account.username.clone(),
                    display_name: account.display_name.clone(),
                    role: account.role,
                },
            );
        }
        i += 1;
    }
    None
}

/// How operators show who they are.
#[derive(Debug)]
pub enum AuthProvider {
    Disabled,
    LegacySharedPassword(LegacySharedPasswordProvider),
    LocalAccounts(LocalAccountsProvider),
}

impl AuthProvider {
    /// The operator behind a name and a password.
    pub open spec fn login(
        self,
        source: AccountsSource,
        username: Option<Seq<char>>,
        password: Seq<char>,
    ) -> Result<ActorView, ErrorView> {
        match self {
            AuthProvider::Disabled => Err(
                error::plain(ErrorStatus::Conflict, "web UI authentication is disabled"@),
            ),
            AuthProvider::LegacySharedPassword(p) => if password == p.password@ {
                Ok(p.shared_actor())
            } else {
                Err(error::plain(ErrorStatus::Unauthorized, "invalid password"@))
            },
            AuthProvider::LocalAccounts(p) => p.login(source, username, password),
        }
    }

    /// The operator with a name, where the provider knows one.
    pub open spec fn known_actor(self, source: AccountsSource, username: Seq<char>) -> Result<
        Option<ActorView>,
        ErrorView,
    > {
        match self {
            AuthProvider::Disabled => Ok(None),
            AuthProvider::LegacySharedPassword(p) => Ok(
                if username == LEGACY_ADMIN_USERNAME@ {
                    Some(p.shared_actor())
                } else {
                    None
                },
            ),
            AuthProvider::LocalAccounts(p) => p.lookup(source, username),
        }
    }

    /// The provider that the configuration asks for: accounts where a path to
    /// them is given, else a shared password where there is one, else none.
    pub fn from_config(
        auth_config_path: Option<String>,
        password: Option<String>,
        operator_label: String,
    ) -> (r: AuthProvider)
        ensures
            match text::present(text::opt(auth_config_path)) {
                Some(path) => r matches AuthProvider::LocalAccounts(p) && p.path@ == path,
                None => match password {
                    Some(secret) => if secret@.len() > 0 {
                        r matches AuthProvider::LegacySharedPassword(p) && p.password@ == secret@
                            && p.display_name@ == operator_label@
                    } else {
                        r is Disabled
                    },
                    None => r is Disabled,
                },
            },
    {
        if let Some(path) = auth_config_path {
            let trimmed = trim_text(path.as_str());
            if chars_of(trimmed.as_str()).len() > 0 {
                return AuthProvider::LocalAccounts(LocalAccountsProvider { path: trimmed });
            }
        }
        if let Some(password) = password {
            if chars_of(password.as_str()).len() > 0 {
                return AuthProvider::LegacySharedPassword(
                    LegacySharedPasswordProvider { password, display_name: operator_label },
                );
            }
        }
        AuthProvider::Disabled
    }

    /// Whether operators have to show who they are.
    pub fn enabled(&self) -> (r: bool)
        ensures
            r == !(self is Disabled),
    {
        match self {
            AuthProvider::Disabled => false,
            _ => true,
        }
    }

    /// How operators show who they are.
    pub fn mode(&self) -> (r: AuthMode)
        ensures
            r == match self {
                AuthProvider::Disabled => AuthMode::Disabled,
                AuthProvider::LegacySharedPassword(_) => AuthMode::LegacySharedPassword,
                AuthProvider::LocalAccounts(_) => AuthMode::LocalAccounts,
            },
    {
        match self {
            AuthProvider::Disabled => AuthMode::Disabled,
            AuthProvider::LegacySharedPassword(_) => AuthMode::LegacySharedPassword,
            AuthProvider::LocalAccounts(_) => AuthMode::LocalAccounts,
        }
    }

    /// The operator behind a name and a password. `source` holds the configured
    /// accounts; only local accounts look at it.
    pub fn authenticate(
        &self,
        source: AccountsSource,
        username: Option<&str>,
        password: &str,
    ) -> (r: Result<SessionActor, AppError>)
        ensures
            actor_result(r) == self.login(source, text::opt_str(username), password@),
    {
        match self {
            AuthProvider::Disabled => Err(AppError::conflict("web UI authentication is disabled")),
            AuthProvider::LegacySharedPassword(provider) => provider.authenticate(password),
            AuthProvider::LocalAccounts(provider) => provider.authenticate(
                source,
                username,
                password,
            ),
        }
    }

    /// The operator with a name, where the provider knows one.
    pub fn resolve_actor(&self, source: AccountsSource, username: &str) -> (r: Result<
        Option<SessionActor>,
        AppError,
    >)
        ensures
            opt_actor_result(r) == self.known_actor(source, username@),
    {
        match self {
            AuthProvider::Disabled => Ok(None),
            AuthProvider::LegacySharedPassword(provider) => Ok(provider.resolve_actor(username)),
            AuthProvider::LocalAccounts(provider) => provider.resolve_actor(source, username),
        }
    }
}

// ---------------------------------------------------------------------------
// Laws
// ---------------------------------------------------------------------------

/// A role that allows what another role requires permits all that the other
/// permits, and conversely.
pub proof fn law_roles_are_ordered(a: AuthRole, b: AuthRole)
    ensures
        role_rank(a) >= role_rank(b) <==> forall|p: AuthPermission| #[trigger]
            role_permissions(b).contains(p) ==> role_permissions(a).contains(p),
{
    let x = role_permissions(a);
    let y = role_permissions(b);
    assert(x[0] == AuthPermission::View);
    assert(y[0] == AuthPermission::View);
    if a is Operator || a is Admin {
        assert(x[1] == AuthPermission::Operate);
    }
    if b is Operator || b is Admin {
        assert(y[1] == AuthPermission::Operate);
        assert(y.contains(AuthPermission::Operate));
    }
    if a is Admin {
        assert(x[2] == AuthPermission::Admin);
    }
    if b is Admin {
        assert(y[2] == AuthPermission::Admin);
        assert(y.contains(AuthPermission::Admin));
    }
}

/// The stored name of a role names that role.
pub proof fn law_role_name_comes_back(role: AuthRole)
    ensures
        named_role(role_name(role)) == Some(role),
{
    reveal_strlit("viewer");
    reveal_strlit("operator");
    reveal_strlit("admin");
    let name = role_name(role);
    assert(text::lower(name) =~= name);
    crate::text_lemmas::lemma_trim_noop(name, text::space());
    assert("viewer"@[0] != "operator"@[0]);
    assert("viewer"@.len() == 6 && "operator"@.len() == 8 && "admin"@.len() == 5);
}

/// No two accounts of a configuration have one name.
pub proof fn law_usernames_are_unique(configs: Seq<LocalAccountConfig>, path: Seq<char>)
    ensures
        accounts_of(configs, path) matches Ok(list) ==> forall|i: int, j: int|
            0 <= i < j < list.len() ==> (#[trigger] list[i]).username != (
            #[trigger] list[j]).username,
    decreases configs.len(),
{
    if configs.len() > 0 {
        law_usernames_are_unique(configs.drop_last(), path);
    }
}

/// A disabled account gives no access.
pub proof fn law_disabled_accounts_give_no_access(
    provider: LocalAccountsProvider,
    source: AccountsSource,
    username: Seq<char>,
    password: Seq<char>,
    accounts: Seq<AccountView>,
    i: int,
)
    requires
        source_accounts(source, provider.path@) == Ok::<Seq<AccountView>, ErrorView>(accounts),
        is_account(accounts, username, i),
        accounts[i].disabled,
    ensures
        login_result(accounts, username, password) == Err::<ActorView, ErrorView>(bad_login()),
        provider.lookup(source, username) == Ok::<Option<ActorView>, ErrorView>(None),
{
    let k = choose|k: int| #[trigger] is_account(accounts, username, k);
    lemma_account_is_unique(accounts, username, i, k);
    match source {
        AccountsSource::Loaded(configs) => {
            law_usernames_are_unique(configs@, provider.path@);
        },
        AccountsSource::Failed(_) => {},
    }
    lemma_no_enabled(accounts, username, i);
}

/// An operator who has just logged in is the one that the provider knows under
/// the name, as long as the accounts stay the same.
pub proof fn law_login_is_remembered(
    provider: AuthProvider,
    source: AccountsSource,
    username: Option<Seq<char>>,
    password: Seq<char>,
    actor: ActorView,
)
    requires
        provider.login(source, username, password) == Ok::<ActorView, ErrorView>(actor),
    ensures
        provider.known_actor(source, actor.username) == Ok::<Option<ActorView>, ErrorView>(
            Some(actor),
        ),
{
    if let AuthProvider::LocalAccounts(local) = provider {
        let name = text::present(username).unwrap();
        let accounts = source_accounts(source, local.path@)->Ok_0;
        let i = choose|i: int| #[trigger] is_account(accounts, name, i);
        assert(is_account(accounts, name, i));
        lemma_enabled(accounts, name, i);
    }
}

proof fn lemma_enabled(accounts: Seq<AccountView>, username: Seq<char>, i: int)
    requires
        is_account(accounts, username, i),
        !accounts[i].disabled,
    ensures
        enabled_actor(accounts, username) == Some(account_actor(accounts[i])),
    decreases accounts.len(),
{
    if i > 0 {
        let rest = accounts.drop_first();
        assert(accounts[0].username != username);
        assert forall|j: int| 0 <= j < i - 1 implies (#[trigger] rest[j]).username
            != username by {
            assert(rest[j] == accounts[j + 1]);
        }
        assert(rest[i - 1] == accounts[i]);
        assert(is_account(rest, username, i - 1));
        lemma_enabled(rest, username, i - 1);
    }
}

proof fn lemma_no_enabled(accounts: Seq<AccountView>, username: Seq<char>, i: int)
    requires
        0 <= i < accounts.len(),
        accounts[i].username == username,
        accounts[i].disabled,
        forall|a: int, b: int|
            0 <= a < b < accounts.len() ==> (#[trigger] accounts[a]).username != (
            #[trigger] accounts[b]).username,
    ensures
        enabled_actor(accounts, username) is None,
    decreases accounts.len(),
{
    let rest = accounts.drop_first();
    if i > 0 {
        assert(accounts[0].username != accounts[i].username);
        assert(rest[i - 1] == accounts[i]);
        assert forall|a: int, b: int| 0 <= a < b < rest.len() implies (
        #[trigger] rest[a]).username != (#[trigger] rest[b]).username by {
            assert(rest[a] == accounts[a + 1]);
            assert(rest[b] == accounts[b + 1]);
        }
        lemma_no_enabled(rest, username, i - 1);
    } else {
        assert forall|j: int| 0 <= j < rest.len() implies (#[trigger] rest[j]).username
            != username by {
            assert(rest[j] == accounts[j + 1]);
            assert(accounts[0].username != accounts[j + 1].username);
        }
        lemma_absent(rest, username);
    }
}

proof fn lemma_absent(accounts: Seq<AccountView>, username: Seq<char>)
    requires
        forall|j: int| 0 <= j < accounts.len() ==> (#[trigger] accounts[j]).username != username,
    ensures
        enabled_actor(accounts, username) is None,
    decreases accounts.len(),
{
    if accounts.len() > 0 {
        let rest = accounts.drop_first();
        assert forall|j: int| 0 <= j < rest.len() implies (#[trigger] rest[j]).username
            != username by {
            assert(rest[j] == accounts[j + 1]);
        }
        lemma_absent(rest, username);
    }
}

} // verus!
