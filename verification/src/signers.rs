//! The keys with which the orchestrator signs registration challenges.

use crate::crypto;
use crate::crypto::{decode_base64, PrivateKey, PublicKey};
use crate::error;
use crate::error::{AppError, ErrorStatus, ErrorView};
use crate::scan;
use crate::scan::{chars_of, same_text, text_of, trim_text};
use crate::text;
use crate::text_lemmas;
use vstd::prelude::*;

verus! {

// ---------------------------------------------------------------------------
// Decoding
// ---------------------------------------------------------------------------

/// The refusal of a text that is no base64.
pub open spec fn not_base64(label: Seq<char>) -> ErrorView {
    error::plain(ErrorStatus::BadRequest, label + " is not valid base64url"@)
}

/// The private key that a text stands for.
pub open spec fn private_key_in(value: Seq<char>, label: Seq<char>) -> Result<Seq<u8>, ErrorView> {
    match crypto::decoded(text::trim(value)) {
        Some(b) => if b.len() == crypto::KEY_BYTES {
            Ok(b)
        } else {
            Err(
                error::plain(
                    ErrorStatus::BadRequest,
                    label + " must decode to a 32-byte Ed25519 private key"@,
                ),
            )
        },
        None => Err(not_base64(label)),
    }
}

/// The refusal of a public key with another number of bytes.
pub open spec fn wrong_key_length(label: Seq<char>) -> ErrorView {
    error::plain(
        ErrorStatus::BadRequest,
        label + " must decode to a 32-byte Ed25519 public key"@,
    )
}

/// The refusal of bytes that are no public key.
pub open spec fn no_key(label: Seq<char>) -> ErrorView {
    error::plain(ErrorStatus::BadRequest, label + " is not a valid Ed25519 key"@)
}

/// The public key that a text stands for.
pub open spec fn public_key_in(value: Seq<char>, label: Seq<char>) -> Result<Seq<u8>, ErrorView> {
    match crypto::decoded(text::trim(value)) {
        Some(b) => if b.len() != crypto::KEY_BYTES {
            Err(wrong_key_length(label))
        } else if !crypto::is_public_key(b) {
            Err(no_key(label))
        } else {
            Ok(b)
        },
        None => Err(not_base64(label)),
    }
}

/// The signature that a text stands for.
pub open spec fn signature_in(value: Seq<char>, label: Seq<char>) -> Result<Seq<u8>, ErrorView> {
    match crypto::decoded(text::trim(value)) {
        Some(b) => if b.len() == crypto::SIGNATURE_BYTES {
            Ok(b)
        } else {
            Err(
                error::plain(
                    ErrorStatus::BadRequest,
                    label + " must decode to a 64-byte Ed25519 signature"@,
                ),
            )
        },
        None => Err(not_base64(label)),
    }
}

/// The bytes that a text stands for.
pub fn decode_base64_bytes(value: &str, label: &str) -> (r: Result<Vec<u8>, AppError>)
    ensures
        match r {
            Ok(b) => crypto::decoded(text::trim(value@)) == Some(b@),
            Err(e) => crypto::decoded(text::trim(value@)) is None && e@ == not_base64(label@),
        },
{
    match decode_base64(trim_text(value).as_str()) {
        Some(bytes) => Ok(bytes),
        None => Err(
            AppError::bad_request(label.to_string().concat(" is not valid base64url").as_str()),
        ),
    }
}

/// The private key that a text stands for.
pub fn decode_signing_key(value: &str, label: &str) -> (r: Result<PrivateKey, AppError>)
    ensures
        match r {
            Ok(key) => private_key_in(value@, label@) == Ok::<Seq<u8>, ErrorView>(key.bytes()),
            Err(e) => private_key_in(value@, label@) == Err::<Seq<u8>, ErrorView>(e@),
        },
{
    let bytes = match decode_base64_bytes(value, label) {
        Ok(bytes) => bytes,
        Err(e) => return Err(e),
    };
    match PrivateKey::from_bytes(bytes.as_slice()) {
        Some(key) => Ok(key),
        None => Err(
            AppError::bad_request(
                label.to_string().concat(
                    " must decode to a 32-byte Ed25519 private key",
                ).as_str(),
            ),
        ),
    }
}

/// The bytes that a text stands for, as many as a public key has.
pub fn decode_key_bytes(value: &str, label: &str) -> (r: Result<Vec<u8>, AppError>)
    ensures
        match r {
            Ok(b) => crypto::decoded(text::trim(value@)) == Some(b@) && b@.len()
                == crypto::KEY_BYTES,
            Err(e) => match crypto::decoded(text::trim(value@)) {
                Some(b) => b.len() != crypto::KEY_BYTES && e@ == wrong_key_length(label@),
                None => e@ == not_base64(label@),
            },
        },
{
    let bytes = match decode_base64_bytes(value, label) {
        Ok(bytes) => bytes,
        Err(e) => return Err(e),
    };
    if bytes.len() == crypto::KEY_BYTES {
        Ok(bytes)
    } else {
        Err(
            AppError::bad_request(
                label.to_string().concat(" must decode to a 32-byte Ed25519 public key").as_str(),
            ),
        )
    }
}

/// The refusal of bytes that are no public key.
pub fn invalid_key(label: &str) -> (r: AppError)
    ensures
        r@ == no_key(label@),
{
    AppError::bad_request(label.to_string().concat(" is not a valid Ed25519 key").as_str())
}

/// The public key that a text stands for.
pub fn decode_verifying_key(value: &str, label: &str) -> (r: Result<PublicKey, AppError>)
    ensures
        match r {
            Ok(key) => public_key_in(value@, label@) == Ok::<Seq<u8>, ErrorView>(key.bytes()),
            Err(e) => public_key_in(value@, label@) == Err::<Seq<u8>, ErrorView>(e@),
        },
{
    let bytes = match decode_key_bytes(value, label) {
        Ok(bytes) => bytes,
        Err(e) => return Err(e),
    };
    match PublicKey::from_bytes(bytes.as_slice()) {
        Some(key) => Ok(key),
        None => Err(invalid_key(label)),
    }
}

/// The signature that a text stands for.
pub fn decode_signature(value: &str, label: &str) -> (r: Result<Vec<u8>, AppError>)
    ensures
        match r {
            Ok(b) => signature_in(value@, label@) == Ok::<Seq<u8>, ErrorView>(b@),
            Err(e) => signature_in(value@, label@) == Err::<Seq<u8>, ErrorView>(e@),
        },
{
    let bytes = match decode_base64_bytes(value, label) {
        Ok(bytes) => bytes,
        Err(e) => return Err(e),
    };
    if bytes.len() == crypto::SIGNATURE_BYTES {
        Ok(bytes)
    } else {
        Err(
            AppError::bad_request(
                label.to_string().concat(" must decode to a 64-byte Ed25519 signature").as_str(),
            ),
        )
    }
}

// ---------------------------------------------------------------------------
// Configured signers
// ---------------------------------------------------------------------------

/// The id of a configured key: its place in the configuration and the start of
/// its public key.
pub open spec fn key_id(public_key: Seq<char>, index: nat) -> Seq<char> {
    "orchestrator-"@ + text::decimal(index + 1) + "-"@ + text::prefix(public_key, 12)
}

/// The id of a configured key.
pub fn orchestrator_key_id(public_key: &str, index: usize) -> (r: String)
    requires
        index < u64::MAX,
    ensures
        r@ == key_id(public_key@, index as nat),
{
    let chars = chars_of(public_key);
    let prefix = text_of(scan::prefix(chars.as_slice(), 12));
    "orchestrator-".to_string().concat(scan::decimal(index as u64 + 1).as_str()).concat(
        "-",
    ).concat(prefix.as_str())
}

/// A key that the orchestrator is configured with.
pub struct ConfiguredSigner {
    pub key_id: String,
    pub public_key: String,
    pub key: PrivateKey,
}

/// The model of a configured key.
pub struct SignerView {
    pub key_id: Seq<char>,
    pub public_key: Seq<char>,
    pub private_key: Seq<u8>,
}

impl View for ConfiguredSigner {
    type V = SignerView;

    open spec fn view(&self) -> SignerView {
        SignerView {
            key_id: self.key_id@,
            public_key: self.public_key@,
            private_key: self.key.bytes(),
        }
    }
}

/// The signer with a private key at a place in the configuration.
pub open spec fn signer_at(private_key: Seq<u8>, index: nat) -> SignerView {
    let public_key = crypto::base64url(crypto::public_key(private_key));
    SignerView { key_id: key_id(public_key, index), public_key, private_key }
}

/// The configured signers; the first key that cannot be read is an error.
pub open spec fn configured(keys: text::Texts) -> Result<Seq<SignerView>, ErrorView>
    decreases keys.len(),
{
    if keys.len() == 0 {
        Ok(Seq::empty())
    } else {
        match configured(keys.drop_last()) {
            Ok(list) => match private_key_in(keys.last(), "orchestrator signing key"@) {
                Ok(key) => Ok(list.push(signer_at(key, (keys.len() - 1) as nat))),
                Err(e) => Err(e),
            },
            Err(e) => Err(e),
        }
    }
}

/// The models of the configured signers.
pub open spec fn signer_views(list: Seq<ConfiguredSigner>) -> Seq<SignerView> {
    list.map_values(|s: ConfiguredSigner| s@)
}

proof fn lemma_first_error(keys: text::Texts, n: int, e: ErrorView)
    requires
        0 <= n <= keys.len(),
        configured(keys.take(n)) == Err::<Seq<SignerView>, ErrorView>(e),
    ensures
        configured(keys) == Err::<Seq<SignerView>, ErrorView>(e),
    decreases keys.len() - n,
{
    if n < keys.len() {
        assert(keys.take(n + 1).drop_last() =~= keys.take(n));
        lemma_first_error(keys, n + 1, e);
    } else {
        assert(keys.take(n) =~= keys);
    }
}

/// The configured signers; the first key that cannot be read is an error.
pub fn configured_orchestrator_signers(keys: &[String]) -> (r: Result<
    Vec<ConfiguredSigner>,
    AppError,
>)
    ensures
        match r {
            Ok(list) => configured(text::views(keys@)) == Ok::<Seq<SignerView>, ErrorView>(
                signer_views(list@),
            ),
            Err(e) => configured(text::views(keys@)) == Err::<Seq<SignerView>, ErrorView>(e@),
        },
{
    let ghost model = text::views(keys@);
    let mut list: Vec<ConfiguredSigner> = Vec::new();
    let mut i: usize = 0;
    assert(signer_views(list@) =~= Seq::empty());
    while i < keys.len()
        invariant
            i <= keys@.len(),
            model == text::views(keys@),
            configured(model.take(i as int)) == Ok::<Seq<SignerView>, ErrorView>(
                signer_views(list@),
            ),
        decreases keys@.len() - i,
    {
        assert(model.take(i + 1).drop_last() =~= model.take(i as int));
        let ghost before = signer_views(list@);
        match decode_signing_key(keys[i].as_str(), "orchestrator signing key") {
            Ok(key) => {
                let public_key = key.public().encoded();
                let signer = ConfiguredSigner {
                    key_id: orchestrator_key_id(public_key.as_str(), i),
                    public_key,
                    key,
                };
                list.push(signer);
                assert(signer_views(list@) =~= before.push(signer@));
            },
            Err(e) => {
                proof {
                    lemma_first_error(model, i + 1, e@);
                }
                return Err(e);
            },
        }
        i += 1;
    }
    assert(model.take(i as int) =~= model);
    Ok(list)
}

// ---------------------------------------------------------------------------
// Stored states
// ---------------------------------------------------------------------------

/// What is stored of a key.
#[derive(Debug)]
pub struct SignerState {
    pub key_id: String,
    pub public_key: String,
    pub status: String,
}

/// The stored status of the first entry for a public key.
pub open spec fn stored_status(
    states: Seq<SignerState>,
    public_key: Seq<char>,
) -> Option<Seq<char>>
    decreases states.len(),
{
    if states.len() == 0 {
        None
    } else if states[0].public_key@ == public_key {
        Some(states[0].status@)
    } else {
        stored_status(states.drop_first(), public_key)
    }
}

/// The status of a configured key: the stored one, else staged.
pub open spec fn signer_status(states: Seq<SignerState>, public_key: Seq<char>) -> Seq<char> {
    text::or_value(stored_status(states, public_key), "staged"@)
}

/// The status of a configured key: the stored one, else staged.
pub fn status_for(states: &[SignerState], public_key: &str) -> (r: String)
    ensures
        r@ == signer_status(states@, public_key@),
{
    match find_status(states, public_key) {
        Some(status) => status,
        None => "staged".to_string(),
    }
}

fn find_status(states: &[SignerState], public_key: &str) -> (r: Option<String>)
    ensures
        text::opt(r) == stored_status(states@, public_key@),
{
    let mut i: usize = 0;
    assert(states@.skip(0) =~= states@);
    while i < states.len()
        invariant
            i <= states@.len(),
            stored_status(states@, public_key@) == stored_status(
                states@.skip(i as int),
                public_key@,
            ),
        decreases states@.len() - i,
    {
        assert(states@.skip(i as int).drop_first() =~= states@.skip(i + 1));
        if same_text(states[i].public_key.as_str(), public_key) {
            return Some(states[i].status.clone());
        }
        i += 1;
    }
    None
}

/// The refusal where no signing key is configured.
pub open spec fn not_configured() -> ErrorView {
    error::plain(ErrorStatus::Conflict, "orchestrator signing key is not configured"@)
}

/// The signers that registrations may use; there has to be one.
pub open spec fn usable(keys: text::Texts) -> Result<Seq<SignerView>, ErrorView> {
    if keys.len() == 0 {
        Err(not_configured())
    } else {
        configured(keys)
    }
}

/// The signers that registrations may use; there has to be one.
pub fn load_orchestrator_signers(keys: &[String]) -> (r: Result<Vec<ConfiguredSigner>, AppError>)
    ensures
        match r {
            Ok(list) => usable(text::views(keys@)) == Ok::<Seq<SignerView>, ErrorView>(
                signer_views(list@),
            ),
            Err(e) => usable(text::views(keys@)) == Err::<Seq<SignerView>, ErrorView>(e@),
        },
{
    if keys.len() == 0 {
        return Err(AppError::conflict("orchestrator signing key is not configured"));
    }
    configured_orchestrator_signers(keys)
}

/// The first configured signer that is active.
pub open spec fn is_first_active(
    signers: Seq<SignerView>,
    states: Seq<SignerState>,
    i: int,
) -> bool {
    0 <= i < signers.len() && signer_status(states, signers[i].public_key) == "active"@
        && forall|j: int|
        0 <= j < i ==> signer_status(states, (#[trigger] signers[j]).public_key) != "active"@
}

/// No signer is active.
pub open spec fn none_active(signers: Seq<SignerView>, states: Seq<SignerState>) -> bool {
    forall|i: int|
        0 <= i < signers.len() ==> signer_status(states, (#[trigger] signers[i]).public_key)
            != "active"@
}

/// The position of the signer that signs new challenges.
pub fn active_signer_index(signers: &[ConfiguredSigner], states: &[SignerState]) -> (r: Result<
    usize,
    AppError,
>)
    ensures
        match r {
            Ok(i) => is_first_active(signer_views(signers@), states@, i as int),
            Err(e) => none_active(signer_views(signers@), states@) && e@ == not_configured(),
        },
{
    let ghost model = signer_views(signers@);
    let mut i: usize = 0;
    while i < signers.len()
        invariant
            i <= signers@.len(),
            model == signer_views(signers@),
            forall|j: int|
                0 <= j < i ==> signer_status(states@, (#[trigger] model[j]).public_key)
                    != "active"@,
        decreases signers@.len() - i,
    {
        let status = status_for(states, signers[i].public_key.as_str());
        if same_text(status.as_str(), "active") {
            return Ok(i);
        }
        i += 1;
    }
    Err(AppError::conflict("orchestrator signing key is not configured"))
}

/// A signer that devices are told about.
#[derive(Debug)]
pub struct OrchestratorTrustSigner {
    pub key_id: String,
    pub public_key: String,
    pub active: bool,
}

/// The model of such a signer.
pub struct TrustSignerView {
    pub key_id: Seq<char>,
    pub public_key: Seq<char>,
    pub active: bool,
}

impl View for OrchestratorTrustSigner {
    type V = TrustSignerView;

    open spec fn view(&self) -> TrustSignerView {
        TrustSignerView {
            key_id: self.key_id@,
            public_key: self.public_key@,
            active: self.active,
        }
    }
}

/// The models of a list of such signers.
pub open spec fn trust_signer_views(list: Seq<OrchestratorTrustSigner>) -> Seq<TrustSignerView> {
    list.map_values(|s: OrchestratorTrustSigner| s@)
}

/// The signers that devices are told about: all that are not retired.
pub open spec fn exported(signers: Seq<SignerView>, states: Seq<SignerState>) -> Seq<
    TrustSignerView,
>
    decreases signers.len(),
{
    if signers.len() == 0 {
        Seq::empty()
    } else {
        let before = exported(signers.drop_last(), states);
        let s = signers.last();
        let status = signer_status(states, s.public_key);
        if status == "retired"@ {
            before
        } else {
            before.push(
                TrustSignerView {
                    key_id: s.key_id,
                    public_key: s.public_key,
                    active: status == "active"@,
                },
            )
        }
    }
}

/// The signers that devices are told about: all that are not retired.
pub fn exported_orchestrator_signers(signers: &[ConfiguredSigner], states: &[SignerState]) -> (r:
    Vec<OrchestratorTrustSigner>)
    ensures
        trust_signer_views(r@) == exported(signer_views(signers@), states@),
{
    let ghost model = signer_views(signers@);
    let mut out: Vec<OrchestratorTrustSigner> = Vec::new();
    let mut i: usize = 0;
    assert(trust_signer_views(out@) =~= exported(model.take(0), states@));
    while i < signers.len()
        invariant
            i <= signers@.len(),
            model == signer_views(signers@),
            trust_signer_views(out@) == exported(model.take(i as int), states@),
        decreases signers@.len() - i,
    {
        assert(model.take(i + 1).drop_last() =~= model.take(i as int));
        let ghost before = trust_signer_views(out@);
        let status = status_for(states, signers[i].public_key.as_str());
        if !same_text(status.as_str(), "retired") {
            let signer = OrchestratorTrustSigner {
                key_id: signers[i].key_id.clone(),
                public_key: signers[i].public_key.clone(),
                active: same_text(status.as_str(), "active"),
            };
            out.push(signer);
            assert(trust_signer_views(out@) =~= before.push(signer@));
        }
        i += 1;
    }
    assert(model.take(i as int) =~= model);
    out
}

// ---------------------------------------------------------------------------
// Changes of the stored states
// ---------------------------------------------------------------------------

/// A change of what is stored of a key.
#[derive(Debug)]
pub struct SignerUpdate {
    pub key_id: String,
    pub public_key: String,
    pub status: String,
    pub reason: Option<String>,
}

/// The model of a change.
pub struct UpdateView {
    pub key_id: Seq<char>,
    pub public_key: Seq<char>,
    pub status: Seq<char>,
    pub reason: Option<Seq<char>>,
}

impl View for SignerUpdate {
    type V = UpdateView;

    open spec fn view(&self) -> UpdateView {
        UpdateView {
            key_id: self.key_id@,
            public_key: self.public_key@,
            status: self.status@,
            reason: text::opt(self.reason),
        }
    }
}

/// The models of a list of changes.
pub open spec fn update_views(list: Seq<SignerUpdate>) -> Seq<UpdateView> {
    list.map_values(|u: SignerUpdate| u@)
}

/// A stored key is active.
pub open spec fn has_active(states: Seq<SignerState>) -> bool {
    exists|i: int| 0 <= i < states.len() && (#[trigger] states[i]).status@ == "active"@
}

/// What is stored of a configured key that is not stored yet: its id, its public
/// form and a status, and nothing else. The first of the configuration becomes
/// active where no stored key is.
pub open spec fn new_row(s: SignerView, states: Seq<SignerState>, first: bool) -> UpdateView {
    UpdateView {
        key_id: s.key_id,
        public_key: s.public_key,
        status: if !has_active(states) && first {
            "active"@
        } else {
            "staged"@
        },
        reason: None,
    }
}

/// The changes that store the configured keys that are not stored yet.
pub open spec fn sync_updates(signers: Seq<SignerView>, states: Seq<SignerState>) -> Seq<UpdateView>
    decreases signers.len(),
{
    if signers.len() == 0 {
        Seq::empty()
    } else {
        let before = sync_updates(signers.drop_last(), states);
        let s = signers.last();
        if stored_status(states, s.public_key) is Some {
            before
        } else {
            before.push(new_row(s, states, signers.len() == 1))
        }
    }
}

fn any_active(states: &[SignerState]) -> (r: bool)
    ensures
        r == has_active(states@),
{
    let mut i: usize = 0;
    while i < states.len()
        invariant
            i <= states@.len(),
            forall|j: int| 0 <= j < i ==> (#[trigger] states@[j]).status@ != "active"@,
        decreases states@.len() - i,
    {
        if same_text(states[i].status.as_str(), "active") {
            return true;
        }
        i += 1;
    }
    false
}

fn push_update(list: &mut Vec<SignerUpdate>, update: SignerUpdate)
    ensures
        update_views(final(list)@) == update_views(old(list)@).push(update@),
{
    let ghost before = update_views(list@);
    list.push(update);
    assert(update_views(list@) =~= before.push(update@));
}

/// The changes that store the configured keys that are not stored yet.
pub fn sync_configured_signers(signers: &[ConfiguredSigner], states: &[SignerState]) -> (r: Vec<
    SignerUpdate,
>)
    ensures
        update_views(r@) == sync_updates(signer_views(signers@), states@),
{
    let ghost model = signer_views(signers@);
    let active = any_active(states);
    let mut out: Vec<SignerUpdate> = Vec::new();
    let mut i: usize = 0;
    assert(update_views(out@) =~= sync_updates(model.take(0), states@));
    while i < signers.len()
        invariant
            i <= signers@.len(),
            model == signer_views(signers@),
            active == has_active(states@),
            update_views(out@) == sync_updates(model.take(i as int), states@),
        decreases signers@.len() - i,
    {
        assert(model.take(i + 1).drop_last() =~= model.take(i as int));
        if find_status(states, signers[i].public_key.as_str()).is_none() {
            let status = if !active && i == 0 {
                "active"
            } else {
                "staged"
            };
            let update = SignerUpdate {
                key_id: signers[i].key_id.clone(),
                public_key: signers[i].public_key.clone(),
                status: status.to_string(),
                reason: None,
            };
            push_update(&mut out, update);
        }
        i += 1;
    }
    assert(model.take(i as int) =~= model);
    out
}

/// The stored status of the last entry for a key id.
pub open spec fn status_by_id(states: Seq<SignerState>, id: Seq<char>) -> Option<Seq<char>>
    decreases states.len(),
{
    if states.len() == 0 {
        None
    } else if states.last().key_id@ == id {
        Some(states.last().status@)
    } else {
        status_by_id(states.drop_last(), id)
    }
}

/// The changes that take other signers out of use.
pub open spec fn deactivations(
    signers: Seq<SignerView>,
    states: Seq<SignerState>,
    id: Seq<char>,
) -> Seq<UpdateView>
    decreases signers.len(),
{
    if signers.len() == 0 {
        Seq::empty()
    } else {
        let before = deactivations(signers.drop_last(), states, id);
        let s = signers.last();
        if s.key_id == id || status_by_id(states, s.key_id) == Some("retired"@) {
            before
        } else {
            before.push(
                UpdateView {
                    key_id: s.key_id,
                    public_key: s.public_key,
                    status: "staged"@,
                    reason: Some("deactivated by signer activation"@),
                },
            )
        }
    }
}

/// No signer has the key id.
pub open spec fn none_with_id(signers: Seq<SignerView>, id: Seq<char>) -> bool {
    forall|i: int| 0 <= i < signers.len() ==> (#[trigger] signers[i]).key_id != id
}

/// The first signer with a key id.
pub open spec fn is_first_with_id(signers: Seq<SignerView>, id: Seq<char>, i: int) -> bool {
    0 <= i < signers.len() && signers[i].key_id == id && forall|j: int|
        0 <= j < i ==> (#[trigger] signers[j]).key_id != id
}

/// The changes that give a signer a status.
pub open spec fn status_updates(
    signers: Seq<SignerView>,
    states: Seq<SignerState>,
    i: int,
    status: Seq<char>,
    reason: Option<Seq<char>>,
) -> Seq<UpdateView> {
    let target = signers[i];
    let others = if status == "active"@ {
        deactivations(signers, states, target.key_id)
    } else {
        Seq::empty()
    };
    others.push(
        UpdateView { key_id: target.key_id, public_key: target.public_key, status, reason },
    )
}

fn find_status_by_id(states: &[SignerState], id: &str) -> (r: Option<String>)
    ensures
        text::opt(r) == status_by_id(states@, id@),
{
    let mut n: usize = states.len();
    assert(states@.take(n as int) =~= states@);
    while n > 0
        invariant
            n <= states@.len(),
            status_by_id(states@, id@) == status_by_id(states@.take(n as int), id@),
        decreases n,
    {
        assert(states@.take(n as int).drop_last() =~= states@.take(n - 1));
        if same_text(states[n - 1].key_id.as_str(), id) {
            return Some(states[n - 1].status.clone());
        }
        n -= 1;
    }
    None
}

fn push_deactivations(
    out: &mut Vec<SignerUpdate>,
    signers: &[ConfiguredSigner],
    states: &[SignerState],
    id: &str,
)
    ensures
        update_views(final(out)@) == update_views(old(out)@) + deactivations(
            signer_views(signers@),
            states@,
            id@,
        ),
{
    let ghost model = signer_views(signers@);
    let ghost start = update_views(out@);
    let mut i: usize = 0;
    assert(start + deactivations(model.take(0), states@, id@) =~= start);
    while i < signers.len()
        invariant
            i <= signers@.len(),
            model == signer_views(signers@),
            update_views(out@) == start + deactivations(model.take(i as int), states@, id@),
        decreases signers@.len() - i,
    {
        assert(model.take(i + 1).drop_last() =~= model.take(i as int));
        let retired = match find_status_by_id(states, signers[i].key_id.as_str()) {
            Some(status) => same_text(status.as_str(), "retired"),
            None => false,
        };
        if !same_text(signers[i].key_id.as_str(), id) && !retired {
            let update = SignerUpdate {
                key_id: signers[i].key_id.clone(),
                public_key: signers[i].public_key.clone(),
                status: "staged".to_string(),
                reason: Some("deactivated by signer activation".to_string()),
            };
            push_update(out, update);
        }
        assert(update_views(out@) =~= start + deactivations(model.take(i + 1), states@, id@));
        i += 1;
    }
    assert(model.take(i as int) =~= model);
}

/// The changes that give a signer a status. Activating one takes the others
/// out of use, but for those that are retired.
pub fn set_orchestrator_signer_status(
    signers: &[ConfiguredSigner],
    states: &[SignerState],
    id: &str,
    status: &str,
    reason: Option<&str>,
) -> (r: Result<Vec<SignerUpdate>, AppError>)
    ensures
        match r {
            Ok(updates) => exists|i: int|
                #[trigger] is_first_with_id(signer_views(signers@), id@, i) && update_views(
                    updates@,
                ) == status_updates(
                    signer_views(signers@),
                    states@,
                    i,
                    status@,
                    text::opt_str(reason),
                ),
            Err(e) => none_with_id(signer_views(signers@), id@)
                && e@ == error::coded(
                ErrorStatus::NotFound,
                "orchestrator signer not found"@,
                "orchestrator_signer_not_configured"@,
            ),
        },
{
    let ghost model = signer_views(signers@);
    let mut i: usize = 0;
    while i < signers.len() && !same_text(signers[i].key_id.as_str(), id)
        invariant
            i <= signers@.len(),
            model == signer_views(signers@),
            forall|j: int| 0 <= j < i ==> (#[trigger] model[j]).key_id != id@,
        decreases signers@.len() - i,
    {
        i += 1;
    }
    if i == signers.len() {
        return Err(
            AppError::not_found("orchestrator signer not found").with_code(
                "orchestrator_signer_not_configured",
            ),
        );
    }
    assert(model[i as int].key_id == id@);
    assert(is_first_with_id(model, id@, i as int));
    let mut updates: Vec<SignerUpdate> = Vec::new();
    assert(update_views(updates@) =~= Seq::empty());
    if same_text(status, "active") {
        push_deactivations(&mut updates, signers, states, id);
        assert(update_views(updates@) =~= deactivations(model, states@, id@));
    }
    let reason = match reason {
        Some(reason) => Some(reason.to_string()),
        None => None,
    };
    let update = SignerUpdate {
        key_id: signers[i].key_id.clone(),
        public_key: signers[i].public_key.clone(),
        status: status.to_string(),
        reason,
    };
    push_update(&mut updates, update);
    Ok(updates)
}

// ---------------------------------------------------------------------------
// Laws
// ---------------------------------------------------------------------------

/// The status that the changes leave stored for a public key.
pub open spec fn status_after(
    updates: Seq<UpdateView>,
    stored: Option<Seq<char>>,
    public_key: Seq<char>,
) -> Option<Seq<char>>
    decreases updates.len(),
{
    if updates.len() == 0 {
        stored
    } else if updates.last().public_key == public_key {
        Some(updates.last().status)
    } else {
        status_after(updates.drop_last(), stored, public_key)
    }
}

proof fn lemma_deactivated(
    signers: Seq<SignerView>,
    states: Seq<SignerState>,
    id: Seq<char>,
    k: int,
    stored: Option<Seq<char>>,
)
    requires
        0 <= k < signers.len(),
        signers[k].key_id != id,
        status_by_id(states, signers[k].key_id) != Some("retired"@),
    ensures
        status_after(deactivations(signers, states, id), stored, signers[k].public_key) == Some(
            "staged"@,
        ),
    decreases signers.len(),
{
    let before = signers.drop_last();
    let updates = deactivations(signers, states, id);
    let s = signers.last();
    if k < before.len() {
        assert(before[k] == signers[k]);
        lemma_deactivated(before, states, id, k, stored);
        if !(s.key_id == id || status_by_id(states, s.key_id) == Some("retired"@)) {
            assert(updates.drop_last() =~= deactivations(before, states, id));
        }
    } else {
        assert(updates.drop_last() =~= deactivations(before, states, id));
    }
}

/// Activating a signer leaves it active, and no other configured key that was
/// not retired.
pub proof fn law_activation_leaves_one_active(
    signers: Seq<SignerView>,
    states: Seq<SignerState>,
    i: int,
    reason: Option<Seq<char>>,
    k: int,
)
    requires
        0 <= i < signers.len(),
        0 <= k < signers.len(),
        signers[k].key_id != signers[i].key_id,
        signers[k].public_key != signers[i].public_key,
        status_by_id(states, signers[k].key_id) != Some("retired"@),
    ensures
        status_after(
            status_updates(signers, states, i, "active"@, reason),
            stored_status(states, signers[i].public_key),
            signers[i].public_key,
        ) == Some("active"@),
        status_after(
            status_updates(signers, states, i, "active"@, reason),
            stored_status(states, signers[k].public_key),
            signers[k].public_key,
        ) == Some("staged"@),
{
    let updates = status_updates(signers, states, i, "active"@, reason);
    let others = deactivations(signers, states, signers[i].key_id);
    assert(updates.drop_last() =~= others);
    lemma_deactivated(
        signers,
        states,
        signers[i].key_id,
        k,
        stored_status(states, signers[k].public_key),
    );
}

/// Storing the configured keys changes nothing of those that are stored.
pub proof fn law_sync_leaves_stored_keys(
    signers: Seq<SignerView>,
    states: Seq<SignerState>,
    public_key: Seq<char>,
)
    requires
        stored_status(states, public_key) is Some,
    ensures
        status_after(
            sync_updates(signers, states),
            stored_status(states, public_key),
            public_key,
        ) == stored_status(states, public_key),
    decreases signers.len(),
{
    if signers.len() > 0 {
        let before = sync_updates(signers.drop_last(), states);
        law_sync_leaves_stored_keys(signers.drop_last(), states, public_key);
        if stored_status(states, signers.last().public_key) is None {
            assert(sync_updates(signers, states).drop_last() =~= before);
        }
    }
}

/// The row of the configured key at a place.
pub open spec fn row_at(signers: Seq<SignerView>, states: Seq<SignerState>, i: int) -> UpdateView {
    new_row(signers[i], states, i == 0)
}

/// Storing the configured keys writes rows of configured keys that are not stored
/// yet. Such a row holds no reason, and the key id and the public key are those
/// of the configured signer.
pub proof fn law_sync_stores_public_data(
    signers: Seq<SignerView>,
    states: Seq<SignerState>,
    k: int,
) -> (i: int)
    requires
        0 <= k < sync_updates(signers, states).len(),
    ensures
        0 <= i < signers.len(),
        stored_status(states, signers[i].public_key) is None,
        sync_updates(signers, states)[k] == row_at(signers, states, i),
        sync_updates(signers, states)[k].key_id == signers[i].key_id,
        sync_updates(signers, states)[k].public_key == signers[i].public_key,
        sync_updates(signers, states)[k].reason is None,
    decreases signers.len(),
{
    let before = sync_updates(signers.drop_last(), states);
    if k < before.len() {
        let i = law_sync_stores_public_data(signers.drop_last(), states, k);
        assert(signers.drop_last()[i] == signers[i]);
        i
    } else {
        signers.len() - 1
    }
}

/// Storing the configured keys writes a row for each that is not stored yet:
/// active for the first of the configuration where no stored key is, else
/// staged.
pub proof fn law_sync_stores_every_key(
    signers: Seq<SignerView>,
    states: Seq<SignerState>,
    i: int,
)
    requires
        0 <= i < signers.len(),
        stored_status(states, signers[i].public_key) is None,
    ensures
        sync_updates(signers, states).contains(row_at(signers, states, i)),
    decreases signers.len(),
{
    let before = sync_updates(signers.drop_last(), states);
    let all = sync_updates(signers, states);
    if i < signers.len() - 1 {
        assert(signers.drop_last()[i] == signers[i]);
        law_sync_stores_every_key(signers.drop_last(), states, i);
        let row = row_at(signers, states, i);
        let k = choose|k: int| 0 <= k < before.len() && before[k] == row;
        assert(all[k] == row);
    } else {
        assert(all[all.len() - 1] == row_at(signers, states, i));
    }
}

proof fn lemma_configured(keys: text::Texts, list: Seq<SignerView>, i: int)
    requires
        configured(keys) == Ok::<Seq<SignerView>, ErrorView>(list),
        0 <= i < list.len(),
    ensures
        list.len() == keys.len(),
        list[i].key_id == key_id(list[i].public_key, i as nat),
    decreases keys.len(),
{
    let before = configured(keys.drop_last())->Ok_0;
    if before.len() > 0 {
        lemma_configured(keys.drop_last(), before, 0);
    }
    if i < before.len() {
        lemma_configured(keys.drop_last(), before, i);
        assert(list[i] == before[i]);
    }
}

/// A configuration has no two signers with one key id.
pub proof fn law_key_ids_are_unique(keys: text::Texts, list: Seq<SignerView>, i: int, j: int)
    requires
        configured(keys) == Ok::<Seq<SignerView>, ErrorView>(list),
        0 <= i < j < list.len(),
    ensures
        list[i].key_id != list[j].key_id,
{
    lemma_configured(keys, list, i);
    lemma_configured(keys, list, j);
    if list[i].key_id == list[j].key_id {
        lemma_key_id_holds_index(list[i].public_key, i as nat, list[j].public_key, j as nat);
    }
}

proof fn lemma_key_id_holds_index(a: Seq<char>, i: nat, b: Seq<char>, j: nat)
    requires
        key_id(a, i) == key_id(b, j),
    ensures
        i == j,
{
    reveal_strlit("orchestrator-");
    reveal_strlit("-");
    let x = text::decimal(i + 1);
    let y = text::decimal(j + 1);
    let s = key_id(a, i);
    assert(s == key_id(b, j));
    let n: int = 13;
    text_lemmas::lemma_decimal(i + 1);
    text_lemmas::lemma_decimal(j + 1);
    assert(s[n + x.len()] == '-');
    assert(s[n + y.len()] == '-');
    assert(x.len() == y.len()) by {
        if x.len() < y.len() {
            assert(s[n + x.len()] == y[x.len() as int]);
        }
        if y.len() < x.len() {
            assert(s[n + y.len()] == x[y.len() as int]);
        }
    }
    assert forall|k: int| 0 <= k < x.len() implies x[k] == y[k] by {
        assert(x[k] == s[n + k]);
        assert(y[k] == s[n + k]);
    }
    assert(x =~= y);
    text_lemmas::lemma_decimal_is_unique(i + 1, j + 1);
}

} // verus!
