//! Registration of devices with proof: challenges of the orchestrator and the
//! signatures that answer them.

use crate::crypto;
use crate::crypto::{decode_base64, encode_base64, PublicKey};
use crate::device_models::RegistrationTrustIntent;
use crate::device_trust::{RegistrationView, TrustedRegistration};
use crate::error;
use crate::error::{AppError, ErrorStatus, ErrorView};
use crate::formatting::holds_text;
use crate::ids;
use crate::ids::fresh_id;
use crate::scan::{copy_opt, same_text, trim_text};
use crate::signers;
use crate::signers::{
    active_signer_index, decode_key_bytes, decode_signature, exported_orchestrator_signers,
    invalid_key, load_orchestrator_signers, status_for, ConfiguredSigner, OrchestratorTrustSigner,
    SignerState, SignerView,
};
use crate::text;
use crate::time;
use crate::time::Timestamp;
use rand::RngCore;
use vstd::prelude::*;

verus! {

/// How many seconds a challenge may lie in the future.
pub const CHALLENGE_SKEW: i64 = 60;

/// How many seconds a challenge is valid.
pub const CHALLENGE_LIFETIME: i64 = 600;

/// What the trust in devices is configured with.
#[derive(Debug)]
pub struct TrustRuntime {
    pub orchestrator_signing_keys: Vec<String>,
    pub require_trusted_edge_registration: bool,
    pub revoked_edge_public_keys: Vec<String>,
}

/// The proof that a device sends with its registration.
#[derive(Debug)]
pub struct DeviceRegistrationTrustProof {
    pub orchestrator_challenge_id: String,
    pub orchestrator_challenge: String,
    pub orchestrator_challenge_issued_at: Timestamp,
    pub orchestrator_key_id: String,
    pub orchestrator_public_key: String,
    pub orchestrator_signature: String,
    pub edge_public_key: String,
    pub edge_signature: String,
    pub previous_edge_public_key: Option<String>,
    pub previous_edge_signature: Option<String>,
    pub registration_intent: RegistrationTrustIntent,
}

/// The model of a proof.
pub struct ProofView {
    pub challenge_id: Seq<char>,
    pub challenge: Seq<char>,
    pub issued_at: Timestamp,
    pub orchestrator_key_id: Seq<char>,
    pub orchestrator_public_key: Seq<char>,
    pub orchestrator_signature: Seq<char>,
    pub edge_public_key: Seq<char>,
    pub edge_signature: Seq<char>,
    pub previous_edge_public_key: Option<Seq<char>>,
    pub previous_edge_signature: Option<Seq<char>>,
    pub registration_intent: RegistrationTrustIntent,
}

impl View for DeviceRegistrationTrustProof {
    type V = ProofView;

    open spec fn view(&self) -> ProofView {
        ProofView {
            challenge_id: self.orchestrator_challenge_id@,
            challenge: self.orchestrator_challenge@,
            issued_at: self.orchestrator_challenge_issued_at,
            orchestrator_key_id: self.orchestrator_key_id@,
            orchestrator_public_key: self.orchestrator_public_key@,
            orchestrator_signature: self.orchestrator_signature@,
            edge_public_key: self.edge_public_key@,
            edge_signature: self.edge_signature@,
            previous_edge_public_key: text::opt(self.previous_edge_public_key),
            previous_edge_signature: text::opt(self.previous_edge_signature),
            registration_intent: self.registration_intent,
        }
    }
}

// ---------------------------------------------------------------------------
// Signed messages
// ---------------------------------------------------------------------------

/// The RFC 3339 text of an instant.
pub open spec fn instant_text(t: Timestamp) -> Seq<char> {
    time::rfc3339_text(t.secs(), t.nanos())
}

/// The message that the orchestrator signs for a challenge; `issued_at` is the
/// text of the instant.
pub open spec fn challenge_text(
    challenge_id: Seq<char>,
    challenge: Seq<char>,
    issued_at: Seq<char>,
) -> Seq<char> {
    "elowen-orchestrator-registration-challenge\n"@ + challenge_id + "\n"@ + challenge + "\n"@
        + issued_at
}

/// The message that the orchestrator signs for a challenge.
pub open spec fn challenge_message(
    challenge_id: Seq<char>,
    challenge: Seq<char>,
    issued_at: Timestamp,
) -> Seq<char> {
    challenge_text(challenge_id, challenge, instant_text(issued_at))
}

/// A truth value as messages write it.
pub open spec fn flag_text(flag: bool) -> Seq<char> {
    if flag {
        "true"@
    } else {
        "false"@
    }
}

/// The message that a device signs with the key `edge_key`; `issued_at` is the
/// text of the instant of the challenge.
pub open spec fn edge_text(
    device_id: Seq<char>,
    name: Seq<char>,
    primary: bool,
    evidence: ProofView,
    edge_key: Seq<char>,
    issued_at: Seq<char>,
) -> Seq<char> {
    "elowen-edge-registration\n"@ + device_id + "\n"@ + name + "\n"@ + flag_text(primary) + "\n"@
        + evidence.challenge_id + "\n"@ + evidence.challenge + "\n"@ + issued_at + "\n"@
        + evidence.orchestrator_key_id + "\n"@ + evidence.orchestrator_public_key + "\n"@ + edge_key
}

/// The message that a device signs with the key `edge_key`.
pub open spec fn edge_message(
    device_id: Seq<char>,
    name: Seq<char>,
    primary: bool,
    evidence: ProofView,
    edge_key: Seq<char>,
) -> Seq<char> {
    edge_text(device_id, name, primary, evidence, edge_key, instant_text(evidence.issued_at))
}

/// The message that the orchestrator signs for a challenge, given the text of
/// the instant.
pub fn challenge_payload_at(challenge_id: &str, challenge: &str, issued_at: &str) -> (r: String)
    ensures
        r@ == challenge_text(challenge_id@, challenge@, issued_at@),
{
    "elowen-orchestrator-registration-challenge\n".to_string().concat(challenge_id).concat(
        "\n",
    ).concat(challenge).concat("\n").concat(issued_at)
}

/// The message that the orchestrator signs for a challenge.
pub fn orchestrator_challenge_payload(
    challenge_id: &str,
    challenge: &str,
    issued_at: Timestamp,
) -> (r: String)
    ensures
        r@ == challenge_message(challenge_id@, challenge@, issued_at),
{
    challenge_payload_at(challenge_id, challenge, issued_at.to_rfc3339().as_str())
}

/// The message that a device signs with its present key.
pub fn edge_registration_payload(
    device_id: &str,
    name: &str,
    primary_flag: bool,
    evidence: &DeviceRegistrationTrustProof,
) -> (r: String)
    ensures
        r@ == edge_message(device_id@, name@, primary_flag, evidence@, evidence.edge_public_key@),
{
    edge_registration_payload_with_edge_key(
        device_id,
        name,
        primary_flag,
        evidence,
        evidence.edge_public_key.as_str(),
    )
}

/// The message that a device signs with the key `edge_public_key`.
pub fn edge_registration_payload_with_edge_key(
    device_id: &str,
    name: &str,
    primary_flag: bool,
    evidence: &DeviceRegistrationTrustProof,
    edge_public_key: &str,
) -> (r: String)
    ensures
        r@ == edge_message(device_id@, name@, primary_flag, evidence@, edge_public_key@),
{
    let issued_at = evidence.orchestrator_challenge_issued_at.to_rfc3339();
    edge_payload_at(
        device_id,
        name,
        primary_flag,
        evidence,
        edge_public_key,
        issued_at.as_str(),
    )
}

/// The message that a device signs with the key `edge_public_key`, given the
/// text of the instant of the challenge.
pub fn edge_payload_at(
    device_id: &str,
    name: &str,
    primary_flag: bool,
    evidence: &DeviceRegistrationTrustProof,
    edge_public_key: &str,
    issued_at: &str,
) -> (r: String)
    ensures
        r@ == edge_text(
            device_id@,
            name@,
            primary_flag,
            evidence@,
            edge_public_key@,
            issued_at@,
        ),
{
    let flag = if primary_flag {
        "true"
    } else {
        "false"
    };
    "elowen-edge-registration\n".to_string().concat(device_id).concat("\n").concat(name).concat(
        "\n",
    ).concat(flag).concat("\n").concat(evidence.orchestrator_challenge_id.as_str()).concat(
        "\n",
    ).concat(evidence.orchestrator_challenge.as_str()).concat("\n").concat(issued_at).concat(
        "\n",
    ).concat(evidence.orchestrator_key_id.as_str()).concat("\n").concat(
        evidence.orchestrator_public_key.as_str(),
    ).concat("\n").concat(edge_public_key)
}

// ---------------------------------------------------------------------------
// Challenges
// ---------------------------------------------------------------------------

/// Fills 32 bytes from `rand::thread_rng`. Nothing is said of them.
#[verifier::external_body]
pub(crate) fn random_bytes() -> (r: [u8; 32]) {
    let mut bytes = [0u8; 32];
    rand::thread_rng().fill_bytes(&mut bytes);
    bytes
}

/// A challenge to a device that wants to register.
#[derive(Debug)]
pub struct RegistrationChallengeResponse {
    pub challenge_id: String,
    pub challenge: String,
    pub issued_at: Timestamp,
    pub orchestrator_key_id: String,
    pub orchestrator_public_key: String,
    pub trusted_signers: Vec<OrchestratorTrustSigner>,
    pub signature: String,
}

/// The challenge that `signer` makes of an id and some bytes, with a signature
/// that the public key of the signer accepts.
pub open spec fn is_challenge_by(
    r: RegistrationChallengeResponse,
    signer: SignerView,
    challenge_id: Seq<char>,
    bytes: Seq<u8>,
    issued_at: Timestamp,
) -> bool {
    let message = challenge_message(challenge_id, crypto::base64url(bytes), issued_at);
    let made = crypto::signature(signer.private_key, message);
    &&& r.challenge_id@ == challenge_id
    &&& r.challenge@ == crypto::base64url(bytes)
    &&& r.issued_at == issued_at
    &&& r.orchestrator_key_id@ == signer.key_id
    &&& r.orchestrator_public_key@ == signer.public_key
    &&& r.signature@ == crypto::base64url(made)
    &&& made.len() == crypto::SIGNATURE_BYTES
    &&& crypto::accepts(crypto::public_key(signer.private_key), message, made)
}

/// The challenge that the active signer makes of an id and some bytes.
pub fn challenge_from(
    signers: &[ConfiguredSigner],
    states: &[SignerState],
    challenge_id: String,
    bytes: &[u8],
    issued_at: Timestamp,
) -> (r: Result<RegistrationChallengeResponse, AppError>)
    ensures
        match r {
            Ok(c) => (exists|i: int|
                #[trigger] signers::is_first_active(signers::signer_views(signers@), states@, i)
                    && is_challenge_by(
                    c,
                    signers::signer_views(signers@)[i],
                    challenge_id@,
                    bytes@,
                    issued_at,
                )) && signers::trust_signer_views(c.trusted_signers@) == signers::exported(
                signers::signer_views(signers@),
                states@,
            ),
            Err(e) => e@ == signers::not_configured() && signers::none_active(
                signers::signer_views(signers@),
                states@,
            ),
        },
{
    let index = match active_signer_index(signers, states) {
        Ok(index) => index,
        Err(e) => return Err(e),
    };
    let signer = &signers[index];
    assert(signers::signer_views(signers@)[index as int] == signer@);
    let challenge = encode_base64(bytes);
    let message = orchestrator_challenge_payload(
        challenge_id.as_str(),
        challenge.as_str(),
        issued_at,
    );
    let signature = signer.key.sign(message.as_str());
    Ok(
        RegistrationChallengeResponse {
            challenge_id,
            challenge,
            issued_at,
            orchestrator_key_id: signer.key_id.clone(),
            orchestrator_public_key: signer.public_key.clone(),
            trusted_signers: exported_orchestrator_signers(signers, states),
            signature,
        },
    )
}

/// A new challenge of the active signer.
pub fn new_registration_challenge(
    signers: &[ConfiguredSigner],
    states: &[SignerState],
    issued_at: Timestamp,
) -> (r: Result<RegistrationChallengeResponse, AppError>)
    ensures
        match r {
            Ok(c) => ids::is_id(c.challenge_id@) && c.issued_at == issued_at
                && signers::trust_signer_views(c.trusted_signers@) == signers::exported(
                signers::signer_views(signers@),
                states@,
            ) && exists|i: int, bytes: Seq<u8>|
                bytes.len() == 32 && #[trigger] signers::is_first_active(
                    signers::signer_views(signers@),
                    states@,
                    i,
                ) && #[trigger] is_challenge_by(
                    c,
                    signers::signer_views(signers@)[i],
                    c.challenge_id@,
                    bytes,
                    issued_at,
                ),
            Err(e) => e@ == signers::not_configured() && signers::none_active(
                signers::signer_views(signers@),
                states@,
            ),
        },
{
    let bytes = random_bytes();
    assert(bytes@.len() == 32);
    challenge_from(signers, states, fresh_id(), bytes.as_slice(), issued_at)
}

// ---------------------------------------------------------------------------
// Verification
// ---------------------------------------------------------------------------

/// A refusal with a code.
pub open spec fn unauthorized(message: Seq<char>, code: Seq<char>) -> ErrorView {
    error::coded(ErrorStatus::Unauthorized, message, code)
}

/// What is decided before any key is looked at: `Some` ends the verification.
pub open spec fn early_answer(runtime: TrustRuntime, evidence: Option<ProofView>) -> Option<
    Result<Option<RegistrationView>, ErrorView>,
> {
    match evidence {
        None => if runtime.require_trusted_edge_registration {
            Some(
                Err(
                    unauthorized(
                        "trusted edge registration proof is required"@,
                        "trusted_registration_required"@,
                    ),
                ),
            )
        } else {
            Some(Ok(None))
        },
        Some(p) => if text::views(runtime.revoked_edge_public_keys@).contains(p.edge_public_key) {
            Some(Err(unauthorized("edge public key has been revoked"@, "edge_key_revoked"@)))
        } else {
            None
        },
    }
}

/// The signer is the first that has the key or the key id of the proof.
pub open spec fn is_named_signer(signers: Seq<SignerView>, p: ProofView, i: int) -> bool {
    &&& 0 <= i < signers.len()
    &&& signers[i].public_key == p.orchestrator_public_key || signers[i].key_id
        == p.orchestrator_key_id
    &&& forall|j: int|
        0 <= j < i ==> (#[trigger] signers[j]).public_key != p.orchestrator_public_key
            && signers[j].key_id != p.orchestrator_key_id
}

/// The signer of the challenge: it has to be configured under the key and the
/// key id of the proof, and must not be retired.
pub open spec fn challenge_signer(
    signers: Seq<SignerView>,
    states: Seq<SignerState>,
    p: ProofView,
) -> Result<SignerView, ErrorView> {
    if exists|i: int| #[trigger] is_named_signer(signers, p, i) {
        let i = choose|i: int| #[trigger] is_named_signer(signers, p, i);
        if signers[i].public_key != p.orchestrator_public_key || signers[i].key_id
            != p.orchestrator_key_id {
            Err(
                unauthorized(
                    "orchestrator signer identity did not match configured trust anchors"@,
                    "orchestrator_signer_mismatch"@,
                ),
            )
        } else if signers::signer_status(states, signers[i].public_key) == "retired"@ {
            Err(
                unauthorized(
                    "orchestrator signer is retired"@,
                    "orchestrator_signer_retired"@,
                ),
            )
        } else {
            Ok(signers[i])
        }
    } else {
        Err(
            unauthorized(
                "orchestrator signer is not trusted for registration"@,
                "orchestrator_signer_untrusted"@,
            ),
        )
    }
}

/// What a key says of a signature.
#[derive(Clone, Copy, Debug, PartialEq, Eq, Structural)]
pub enum KeyVerdict {
    /// The bytes are no key.
    NoKey,
    /// The key does not accept the signature.
    Refused,
    /// The key accepts the signature.
    Accepted,
}

/// What the keys say of the signatures in a proof.
#[derive(Debug)]
pub struct Verdicts {
    /// The signer accepts the signature of the challenge.
    pub challenge: bool,
    /// The key that is registered.
    pub present: KeyVerdict,
    /// The key that was registered before.
    pub previous: KeyVerdict,
}

/// Whether the signer accepts the signature of the challenge.
pub open spec fn challenge_signed(signer: SignerView, p: ProofView) -> bool {
    match signers::signature_in(p.orchestrator_signature, "orchestrator challenge signature"@) {
        Ok(signature) => crypto::accepts(
            crypto::public_key(signer.private_key),
            challenge_message(p.challenge_id, p.challenge, p.issued_at),
            signature,
        ),
        Err(_) => false,
    }
}

/// What a key says of a signature of the message. A text that stands for no
/// key or for no signature counts as refused.
pub open spec fn edge_verdict(
    key: Seq<char>,
    signature: Seq<char>,
    message: Seq<char>,
) -> KeyVerdict {
    match (crypto::decoded(text::trim(key)), crypto::decoded(text::trim(signature))) {
        (Some(k), s) => if k.len() != crypto::KEY_BYTES {
            KeyVerdict::Refused
        } else if !crypto::is_public_key(k) {
            KeyVerdict::NoKey
        } else if s is Some && s.unwrap().len() == crypto::SIGNATURE_BYTES && crypto::accepts(
            k,
            message,
            s.unwrap(),
        ) {
            KeyVerdict::Accepted
        } else {
            KeyVerdict::Refused
        },
        (None, _) => KeyVerdict::Refused,
    }
}

/// What the keys say of the signatures in a proof.
pub open spec fn verdicts(
    signer: SignerView,
    device_id: Seq<char>,
    name: Seq<char>,
    primary: bool,
    p: ProofView,
) -> Verdicts {
    Verdicts {
        challenge: challenge_signed(signer, p),
        present: edge_verdict(
            p.edge_public_key,
            p.edge_signature,
            edge_message(device_id, name, primary, p, p.edge_public_key),
        ),
        previous: match (p.previous_edge_public_key, p.previous_edge_signature) {
            (Some(key), Some(signature)) => edge_verdict(
                key,
                signature,
                edge_message(device_id, name, primary, p, key),
            ),
            _ => KeyVerdict::Refused,
        },
    }
}

/// Whether the orchestrator made the challenge, and recently.
pub open spec fn challenge_check(signed: bool, now: Timestamp, p: ProofView) -> Result<
    (),
    ErrorView,
> {
    let age = time::whole_seconds_between(now, p.issued_at);
    match signers::signature_in(
        p.orchestrator_signature,
        "orchestrator challenge signature"@,
    ) {
        Err(e) => Err(e),
        Ok(_) => if !signed {
            Err(
                unauthorized(
                    "orchestrator registration challenge signature is invalid"@,
                    "orchestrator_challenge_signature_invalid"@,
                ),
            )
        } else if age < -CHALLENGE_SKEW || age > CHALLENGE_LIFETIME {
            Err(
                unauthorized(
                    "orchestrator registration challenge is outside the allowed time window"@,
                    "orchestrator_challenge_expired"@,
                ),
            )
        } else {
            Ok(())
        },
    }
}

/// Whether the device holds a key, given what the key says of the signature.
pub open spec fn edge_check(
    key: Seq<char>,
    key_label: Seq<char>,
    signature: Seq<char>,
    signature_label: Seq<char>,
    verdict: KeyVerdict,
    refusal: ErrorView,
) -> Result<(), ErrorView> {
    match crypto::decoded(text::trim(key)) {
        None => Err(signers::not_base64(key_label)),
        Some(k) => if k.len() != crypto::KEY_BYTES {
            Err(signers::wrong_key_length(key_label))
        } else if verdict is NoKey {
            Err(signers::no_key(key_label))
        } else {
            match signers::signature_in(signature, signature_label) {
                Err(e) => Err(e),
                Ok(_) => if verdict is Accepted {
                    Ok(())
                } else {
                    Err(refusal)
                },
            }
        },
    }
}

/// Whether the device holds the key that it registers.
pub open spec fn present_key_check(verdict: KeyVerdict, p: ProofView) -> Result<(), ErrorView> {
    edge_check(
        p.edge_public_key,
        "edge public key"@,
        p.edge_signature,
        "edge registration signature"@,
        verdict,
        unauthorized(
            "edge registration signature is invalid"@,
            "edge_registration_signature_invalid"@,
        ),
    )
}

/// Whether the device holds the key that it had before, where it names one.
pub open spec fn previous_key_check(verdict: KeyVerdict, p: ProofView) -> Result<(), ErrorView> {
    match (p.previous_edge_public_key, p.previous_edge_signature) {
        (Some(key), Some(signature)) => edge_check(
            key,
            "previous edge public key"@,
            signature,
            "previous edge registration signature"@,
            verdict,
            unauthorized(
                "previous edge registration signature is invalid"@,
                "rotation_previous_signature_invalid"@,
            ),
        ),
        (None, None) => Ok(()),
        _ => Err(
            error::coded(
                ErrorStatus::BadRequest,
                "previous edge public key and signature must be supplied together"@,
                "rotation_previous_key_incomplete"@,
            ),
        ),
    }
}

/// The registration that a valid proof stands for.
pub open spec fn proven(signer: SignerView, now: Timestamp, p: ProofView) -> RegistrationView {
    RegistrationView {
        edge_public_key: p.edge_public_key,
        registered_at: now,
        orchestrator_key_id: signer.key_id,
        orchestrator_public_key: signer.public_key,
        registration_intent: p.registration_intent,
        previous_edge_public_key: p.previous_edge_public_key,
    }
}

/// What the proof shows, given what the keys say of its signatures.
pub open spec fn judgement(
    signer: SignerView,
    now: Timestamp,
    p: ProofView,
    said: Verdicts,
) -> Result<RegistrationView, ErrorView> {
    match challenge_check(said.challenge, now, p) {
        Err(e) => Err(e),
        Ok(_) => match present_key_check(said.present, p) {
            Err(e) => Err(e),
            Ok(_) => match previous_key_check(said.previous, p) {
                Err(e) => Err(e),
                Ok(_) => Ok(proven(signer, now, p)),
            },
        },
    }
}

/// What the verification of a proof says, once nothing ended it early.
pub open spec fn verification(
    keys: text::Texts,
    states: Seq<SignerState>,
    device_id: Seq<char>,
    name: Seq<char>,
    primary: bool,
    now: Timestamp,
    p: ProofView,
) -> Result<Option<RegistrationView>, ErrorView> {
    match signers::usable(keys) {
        Err(e) => Err(e),
        Ok(list) => match challenge_signer(list, states, p) {
            Err(e) => Err(e),
            Ok(signer) => match judgement(
                signer,
                now,
                p,
                verdicts(signer, device_id, name, primary, p),
            ) {
                Err(e) => Err(e),
                Ok(registration) => Ok(Some(registration)),
            },
        },
    }
}

/// What the verification of a registration says.
pub open spec fn registration_outcome(
    runtime: TrustRuntime,
    states: Seq<SignerState>,
    device_id: Seq<char>,
    name: Seq<char>,
    primary: bool,
    now: Timestamp,
    evidence: Option<ProofView>,
) -> Result<Option<RegistrationView>, ErrorView> {
    match early_answer(runtime, evidence) {
        Some(answer) => answer,
        None => verification(
            text::views(runtime.orchestrator_signing_keys@),
            states,
            device_id,
            name,
            primary,
            now,
            evidence.unwrap(),
        ),
    }
}

/// The model of a proof that may be absent.
pub open spec fn opt_proof(evidence: Option<&DeviceRegistrationTrustProof>) -> Option<ProofView> {
    match evidence {
        Some(p) => Some(p@),
        None => None,
    }
}

/// The model of an outcome.
pub open spec fn outcome_view(r: Result<Option<TrustedRegistration>, AppError>) -> Result<
    Option<RegistrationView>,
    ErrorView,
> {
    match r {
        Ok(Some(t)) => Ok(Some(t@)),
        Ok(None) => Ok(None),
        Err(e) => Err(e@),
    }
}

/// Whether the proof has to be verified against the signers: an error or a
/// `false` ends the verification.
pub fn needs_verification(
    runtime: &TrustRuntime,
    evidence: Option<&DeviceRegistrationTrustProof>,
) -> (r: Result<bool, AppError>)
    ensures
        match r {
            Ok(more) => if more {
                early_answer(*runtime, opt_proof(evidence)) is None
            } else {
                early_answer(*runtime, opt_proof(evidence)) == Some(
                    Ok::<Option<RegistrationView>, ErrorView>(None),
                )
            },
            Err(e) => early_answer(*runtime, opt_proof(evidence)) == Some(
                Err::<Option<RegistrationView>, ErrorView>(e@),
            ),
        },
{
    match evidence {
        None => {
            if runtime.require_trusted_edge_registration {
                Err(
                    AppError::unauthorized("trusted edge registration proof is required").with_code(
                        "trusted_registration_required",
                    ),
                )
            } else {
                Ok(false)
            }
        },
        Some(evidence) => {
            if holds_text(
                runtime.revoked_edge_public_keys.as_slice(),
                evidence.edge_public_key.as_str(),
            ) {
                Err(
                    AppError::unauthorized("edge public key has been revoked").with_code(
                        "edge_key_revoked",
                    ),
                )
            } else {
                Ok(true)
            }
        },
    }
}

/// The place of the signer of the challenge.
pub fn find_challenge_signer(
    list: &[ConfiguredSigner],
    states: &[SignerState],
    evidence: &DeviceRegistrationTrustProof,
) -> (r: Result<usize, AppError>)
    ensures
        match r {
            Ok(i) => i < list@.len() && challenge_signer(
                signers::signer_views(list@),
                states@,
                evidence@,
            ) == Ok::<SignerView, ErrorView>(signers::signer_views(list@)[i as int]),
            Err(e) => challenge_signer(signers::signer_views(list@), states@, evidence@) == Err::<
                SignerView,
                ErrorView,
            >(e@),
        },
{
    let ghost model = signers::signer_views(list@);
    let mut i: usize = 0;
    while i < list.len()
        invariant
            i <= list@.len(),
            model == signers::signer_views(list@),
            forall|j: int|
                0 <= j < i ==> (#[trigger] model[j]).public_key != evidence@.orchestrator_public_key
                    && model[j].key_id != evidence@.orchestrator_key_id,
        decreases list@.len() - i,
    {
        assert(model[i as int] == list@[i as int]@);
        let same_key = same_text(
            list[i].public_key.as_str(),
            evidence.orchestrator_public_key.as_str(),
        );
        let same_id = same_text(list[i].key_id.as_str(), evidence.orchestrator_key_id.as_str());
        if same_key || same_id {
            proof {
                assert(is_named_signer(model, evidence@, i as int));
                let k = choose|k: int| #[trigger] is_named_signer(model, evidence@, k);
                assert(k == i) by {
                    if k < i {
                        assert(model[k].public_key != evidence@.orchestrator_public_key);
                    }
                    if i < k {
                        assert(model[i as int].public_key != evidence@.orchestrator_public_key);
                    }
                }
            }
            if !(same_key && same_id) {
                return Err(
                    AppError::unauthorized(
                        "orchestrator signer identity did not match configured trust anchors",
                    ).with_code("orchestrator_signer_mismatch"),
                );
            }
            let status = status_for(states, list[i].public_key.as_str());
            if same_text(status.as_str(), "retired") {
                return Err(
                    AppError::unauthorized("orchestrator signer is retired").with_code(
                        "orchestrator_signer_retired",
                    ),
                );
            }
            return Ok(i);
        }
        i += 1;
    }
    Err(
        AppError::unauthorized("orchestrator signer is not trusted for registration").with_code(
            "orchestrator_signer_untrusted",
        ),
    )
}

fn ask_signer(signer: &ConfiguredSigner, evidence: &DeviceRegistrationTrustProof) -> (r: bool)
    ensures
        r == challenge_signed(signer@, evidence@),
{
    let message = orchestrator_challenge_payload(
        evidence.orchestrator_challenge_id.as_str(),
        evidence.orchestrator_challenge.as_str(),
        evidence.orchestrator_challenge_issued_at,
    );
    match decode_signature(
        evidence.orchestrator_signature.as_str(),
        "orchestrator challenge signature",
    ) {
        Ok(signature) => signer.key.public().verify(message.as_str(), signature.as_slice()),
        Err(_) => false,
    }
}

fn ask_edge_key(key: &str, signature: &str, message: &str) -> (r: KeyVerdict)
    ensures
        r == edge_verdict(key@, signature@, message@),
{
    let bytes = match decode_base64(trim_text(key).as_str()) {
        Some(bytes) => bytes,
        None => return KeyVerdict::Refused,
    };
    if bytes.len() != crypto::KEY_BYTES {
        return KeyVerdict::Refused;
    }
    let verifying_key = match PublicKey::from_bytes(bytes.as_slice()) {
        Some(verifying_key) => verifying_key,
        None => return KeyVerdict::NoKey,
    };
    match decode_base64(trim_text(signature).as_str()) {
        Some(signature) => if signature.len() == crypto::SIGNATURE_BYTES
            && verifying_key.verify(message, signature.as_slice()) {
            KeyVerdict::Accepted
        } else {
            KeyVerdict::Refused
        },
        None => KeyVerdict::Refused,
    }
}

fn ask_keys(
    signer: &ConfiguredSigner,
    device_id: &str,
    name: &str,
    primary_flag: bool,
    evidence: &DeviceRegistrationTrustProof,
) -> (r: Verdicts)
    ensures
        r == verdicts(signer@, device_id@, name@, primary_flag, evidence@),
{
    let present = ask_edge_key(
        evidence.edge_public_key.as_str(),
        evidence.edge_signature.as_str(),
        edge_registration_payload(device_id, name, primary_flag, evidence).as_str(),
    );
    let previous = match (&evidence.previous_edge_public_key, &evidence.previous_edge_signature) {
        (Some(key), Some(signature)) => ask_edge_key(
            key.as_str(),
            signature.as_str(),
            edge_registration_payload_with_edge_key(
                device_id,
                name,
                primary_flag,
                evidence,
                key.as_str(),
            ).as_str(),
        ),
        _ => KeyVerdict::Refused,
    };
    Verdicts { challenge: ask_signer(signer, evidence), present, previous }
}

fn check_challenge(
    signed: bool,
    now: Timestamp,
    evidence: &DeviceRegistrationTrustProof,
) -> (r: Result<(), AppError>)
    ensures
        match r {
            Ok(_) => challenge_check(signed, now, evidence@) is Ok,
            Err(e) => challenge_check(signed, now, evidence@) == Err::<(), ErrorView>(e@),
        },
{
    match decode_signature(
        evidence.orchestrator_signature.as_str(),
        "orchestrator challenge signature",
    ) {
        Ok(_) => {},
        Err(e) => return Err(e),
    }
    if !signed {
        return Err(
            AppError::unauthorized(
                "orchestrator registration challenge signature is invalid",
            ).with_code("orchestrator_challenge_signature_invalid"),
        );
    }
    let age = now.seconds_since(evidence.orchestrator_challenge_issued_at);
    if age < -CHALLENGE_SKEW || age > CHALLENGE_LIFETIME {
        return Err(
            AppError::unauthorized(
                "orchestrator registration challenge is outside the allowed time window",
            ).with_code("orchestrator_challenge_expired"),
        );
    }
    Ok(())
}

fn check_edge_key(
    key: &str,
    key_label: &str,
    signature: &str,
    signature_label: &str,
    verdict: KeyVerdict,
    refusal: AppError,
) -> (r: Result<(), AppError>)
    ensures
        match r {
            Ok(_) => edge_check(
                key@,
                key_label@,
                signature@,
                signature_label@,
                verdict,
                refusal@,
            ) is Ok,
            Err(e) => edge_check(
                key@,
                key_label@,
                signature@,
                signature_label@,
                verdict,
                refusal@,
            ) == Err::<(), ErrorView>(e@),
        },
{
    match decode_key_bytes(key, key_label) {
        Ok(_) => {},
        Err(e) => return Err(e),
    }
    if let KeyVerdict::NoKey = verdict {
        return Err(invalid_key(key_label));
    }
    match decode_signature(signature, signature_label) {
        Ok(_) => {},
        Err(e) => return Err(e),
    }
    match verdict {
        KeyVerdict::Accepted => Ok(()),
        _ => Err(refusal),
    }
}

fn check_previous_key(verdict: KeyVerdict, evidence: &DeviceRegistrationTrustProof) -> (r: Result<
    (),
    AppError,
>)
    ensures
        match r {
            Ok(_) => previous_key_check(verdict, evidence@) is Ok,
            Err(e) => previous_key_check(verdict, evidence@) == Err::<(), ErrorView>(e@),
        },
{
    match (&evidence.previous_edge_public_key, &evidence.previous_edge_signature) {
        (Some(key), Some(signature)) => check_edge_key(
            key.as_str(),
            "previous edge public key",
            signature.as_str(),
            "previous edge registration signature",
            verdict,
            AppError::unauthorized("previous edge registration signature is invalid").with_code(
                "rotation_previous_signature_invalid",
            ),
        ),
        (None, None) => Ok(()),
        _ => Err(
            AppError::bad_request(
                "previous edge public key and signature must be supplied together",
            ).with_code("rotation_previous_key_incomplete"),
        ),
    }
}

/// What the proof of a registration shows, given what the keys say of its
/// signatures.
pub fn judge_registration(
    signer: &ConfiguredSigner,
    now: Timestamp,
    evidence: &DeviceRegistrationTrustProof,
    said: &Verdicts,
) -> (r: Result<TrustedRegistration, AppError>)
    ensures
        match r {
            Ok(t) => judgement(signer@, now, evidence@, *said) == Ok::<RegistrationView, ErrorView>(
                t@,
            ),
            Err(e) => judgement(signer@, now, evidence@, *said) == Err::<
                RegistrationView,
                ErrorView,
            >(e@),
        },
{
    match check_challenge(said.challenge, now, evidence) {
        Ok(_) => {},
        Err(e) => return Err(e),
    }
    match check_edge_key(
        evidence.edge_public_key.as_str(),
        "edge public key",
        evidence.edge_signature.as_str(),
        "edge registration signature",
        said.present,
        AppError::unauthorized("edge registration signature is invalid").with_code(
            "edge_registration_signature_invalid",
        ),
    ) {
        Ok(_) => {},
        Err(e) => return Err(e),
    }
    match check_previous_key(said.previous, evidence) {
        Ok(_) => {},
        Err(e) => return Err(e),
    }
    Ok(
        TrustedRegistration {
            edge_public_key: evidence.edge_public_key.clone(),
            registered_at: now,
            orchestrator_key_id: signer.key_id.clone(),
            orchestrator_public_key: signer.public_key.clone(),
            registration_intent: evidence.registration_intent,
            previous_edge_public_key: copy_opt(&evidence.previous_edge_public_key),
        },
    )
}

/// What the proof of a registration shows: `None` where none is given and none
/// is required.
pub fn verify_registration_trust(
    runtime: &TrustRuntime,
    states: &[SignerState],
    device_id: &str,
    name: &str,
    primary_flag: bool,
    now: Timestamp,
    evidence: Option<&DeviceRegistrationTrustProof>,
) -> (r: Result<Option<TrustedRegistration>, AppError>)
    ensures
        outcome_view(r) == registration_outcome(
            *runtime,
            states@,
            device_id@,
            name@,
            primary_flag,
            now,
            opt_proof(evidence),
        ),
{
    match needs_verification(runtime, evidence) {
        Ok(true) => {},
        Ok(false) => return Ok(None),
        Err(e) => return Err(e),
    }
    let evidence = match evidence {
        Some(evidence) => evidence,
        None => return Ok(None),
    };
    let list = match load_orchestrator_signers(runtime.orchestrator_signing_keys.as_slice()) {
        Ok(list) => list,
        Err(e) => return Err(e),
    };
    let index = match find_challenge_signer(list.as_slice(), states, evidence) {
        Ok(index) => index,
        Err(e) => return Err(e),
    };
    let signer = &list[index];
    assert(signers::signer_views(list@)[index as int] == signer@);
    let said = ask_keys(signer, device_id, name, primary_flag, evidence);
    match judge_registration(signer, now, evidence, &said) {
        Ok(registration) => Ok(Some(registration)),
        Err(e) => Err(e),
    }
}

// ---------------------------------------------------------------------------
// Laws
// ---------------------------------------------------------------------------

/// A device counts as trusted only where it signed the challenge with the key
/// that it registers, and that key is not revoked.
pub proof fn law_trust_needs_signatures(
    runtime: TrustRuntime,
    states: Seq<SignerState>,
    device_id: Seq<char>,
    name: Seq<char>,
    primary: bool,
    now: Timestamp,
    evidence: Option<ProofView>,
)
    requires
        registration_outcome(runtime, states, device_id, name, primary, now, evidence) matches Ok(
            Some(_),
        ),
    ensures
        evidence matches Some(p) && {
            &&& !text::views(runtime.revoked_edge_public_keys@).contains(p.edge_public_key)
            &&& signers::public_key_in(p.edge_public_key, "edge public key"@) matches Ok(k)
                && signers::signature_in(p.edge_signature, "edge registration signature"@)
                matches Ok(s) && crypto::accepts(
                k,
                edge_message(device_id, name, primary, p, p.edge_public_key),
                s,
            )
            &&& -CHALLENGE_SKEW <= time::whole_seconds_between(now, p.issued_at)
                <= CHALLENGE_LIFETIME
        },
{
}

/// The signer signed the challenge of the proof.
pub open spec fn signed_by_orchestrator(signer: SignerView, p: ProofView) -> bool {
    let message = challenge_message(p.challenge_id, p.challenge, p.issued_at);
    let made = crypto::signature(signer.private_key, message);
    &&& p.orchestrator_key_id == signer.key_id
    &&& p.orchestrator_public_key == signer.public_key
    &&& p.orchestrator_signature == crypto::base64url(made)
    &&& made.len() == crypto::SIGNATURE_BYTES
    &&& crypto::accepts(crypto::public_key(signer.private_key), message, made)
}

/// The holder of a private key signed the registration with it.
pub open spec fn signed_by_edge(
    private_key: Seq<u8>,
    device_id: Seq<char>,
    name: Seq<char>,
    primary: bool,
    p: ProofView,
) -> bool {
    let public = crypto::public_key(private_key);
    let message = edge_message(device_id, name, primary, p, p.edge_public_key);
    let made = crypto::signature(private_key, message);
    &&& p.edge_public_key == crypto::base64url(public)
    &&& p.edge_signature == crypto::base64url(made)
    &&& public.len() == crypto::KEY_BYTES
    &&& crypto::is_public_key(public)
    &&& made.len() == crypto::SIGNATURE_BYTES
    &&& crypto::accepts(public, message, made)
}

/// The holder of the key that was registered before signed the registration
/// with it, where the proof names such a key.
pub open spec fn signed_by_previous(
    previous_key: Option<Seq<u8>>,
    device_id: Seq<char>,
    name: Seq<char>,
    primary: bool,
    p: ProofView,
) -> bool {
    match previous_key {
        Some(private_key) => {
            let public = crypto::public_key(private_key);
            let key = crypto::base64url(public);
            let message = edge_message(device_id, name, primary, p, key);
            let made = crypto::signature(private_key, message);
            &&& p.previous_edge_public_key == Some(key)
            &&& p.previous_edge_signature == Some(crypto::base64url(made))
            &&& public.len() == crypto::KEY_BYTES
            &&& crypto::is_public_key(public)
            &&& made.len() == crypto::SIGNATURE_BYTES
            &&& crypto::accepts(public, message, made)
        },
        None => p.previous_edge_public_key is None && p.previous_edge_signature is None,
    }
}

/// A device that answers a recent challenge of a configured signer that is not
/// retired, and signs with its own key and with the one before where it names
/// one, is trusted.
pub proof fn law_honest_registration_is_trusted(
    runtime: TrustRuntime,
    states: Seq<SignerState>,
    device_id: Seq<char>,
    name: Seq<char>,
    primary: bool,
    now: Timestamp,
    p: ProofView,
    list: Seq<SignerView>,
    i: int,
    edge_key: Seq<u8>,
    previous_key: Option<Seq<u8>>,
)
    requires
        !text::views(runtime.revoked_edge_public_keys@).contains(p.edge_public_key),
        signers::usable(text::views(runtime.orchestrator_signing_keys@)) == Ok::<
            Seq<SignerView>,
            ErrorView,
        >(list),
        is_named_signer(list, p, i),
        signers::signer_status(states, list[i].public_key) != "retired"@,
        signed_by_orchestrator(list[i], p),
        -CHALLENGE_SKEW <= time::whole_seconds_between(now, p.issued_at) <= CHALLENGE_LIFETIME,
        signed_by_edge(edge_key, device_id, name, primary, p),
        signed_by_previous(previous_key, device_id, name, primary, p),
    ensures
        registration_outcome(runtime, states, device_id, name, primary, now, Some(p)) == Ok::<
            Option<RegistrationView>,
            ErrorView,
        >(Some(proven(list[i], now, p))),
{
    let k = choose|k: int| #[trigger] is_named_signer(list, p, k);
    assert(k == i) by {
        if k < i {
            assert(list[k].public_key != p.orchestrator_public_key);
        }
        if i < k {
            assert(list[i].public_key != p.orchestrator_public_key);
        }
    }
    let challenge = crypto::signature(
        list[i].private_key,
        challenge_message(p.challenge_id, p.challenge, p.issued_at),
    );
    crypto::law_base64_comes_back(challenge);
    crypto::law_base64_is_trimmed(challenge);
    let public = crypto::public_key(edge_key);
    crypto::law_base64_comes_back(public);
    crypto::law_base64_is_trimmed(public);
    let made = crypto::signature(
        edge_key,
        edge_message(device_id, name, primary, p, p.edge_public_key),
    );
    crypto::law_base64_comes_back(made);
    crypto::law_base64_is_trimmed(made);
    if let Some(key) = previous_key {
        let previous = crypto::public_key(key);
        crypto::law_base64_comes_back(previous);
        crypto::law_base64_is_trimmed(previous);
        let made = crypto::signature(
            key,
            edge_message(device_id, name, primary, p, crypto::base64url(previous)),
        );
        crypto::law_base64_comes_back(made);
        crypto::law_base64_is_trimmed(made);
    }
}

/// The proof copies a challenge.
pub open spec fn copies_challenge(p: ProofView, c: RegistrationChallengeResponse) -> bool {
    &&& p.challenge_id == c.challenge_id@
    &&& p.challenge == c.challenge@
    &&& p.issued_at == c.issued_at
    &&& p.orchestrator_key_id == c.orchestrator_key_id@
    &&& p.orchestrator_public_key == c.orchestrator_public_key@
    &&& p.orchestrator_signature == c.signature@
}

/// The first active signer is the one that its challenges name, as long as it is
/// not retired.
proof fn lemma_issuer_is_named(
    keys: text::Texts,
    issued: Seq<SignerState>,
    states: Seq<SignerState>,
    p: ProofView,
    list: Seq<SignerView>,
    i: int,
)
    requires
        signers::usable(keys) == Ok::<Seq<SignerView>, ErrorView>(list),
        signers::is_first_active(list, issued, i),
        signers::signer_status(states, list[i].public_key) != "retired"@,
        p.orchestrator_key_id == list[i].key_id,
        p.orchestrator_public_key == list[i].public_key,
    ensures
        is_named_signer(list, p, i),
        challenge_signer(list, states, p) == Ok::<SignerView, ErrorView>(list[i]),
{
    assert forall|j: int| 0 <= j < i implies (#[trigger] list[j]).public_key
        != p.orchestrator_public_key && list[j].key_id != p.orchestrator_key_id by {
        signers::law_key_ids_are_unique(keys, list, j, i);
    }
    assert(is_named_signer(list, p, i));
    let k = choose|k: int| #[trigger] is_named_signer(list, p, k);
    assert(k == i) by {
        if k < i {
            assert(list[k].public_key != p.orchestrator_public_key);
        }
        if i < k {
            assert(list[i].public_key != p.orchestrator_public_key);
        }
    }
}

/// A device that copies a challenge of the orchestrator into its proof, and signs
/// it, is trusted while the challenge is valid. The signer may lose its place as
/// the active one in between, but must not be retired.
pub proof fn law_issued_challenge_is_trusted(
    runtime: TrustRuntime,
    issued: Seq<SignerState>,
    states: Seq<SignerState>,
    device_id: Seq<char>,
    name: Seq<char>,
    primary: bool,
    now: Timestamp,
    p: ProofView,
    list: Seq<SignerView>,
    i: int,
    c: RegistrationChallengeResponse,
    bytes: Seq<u8>,
    edge_key: Seq<u8>,
    previous_key: Option<Seq<u8>>,
)
    requires
        !text::views(runtime.revoked_edge_public_keys@).contains(p.edge_public_key),
        signers::usable(text::views(runtime.orchestrator_signing_keys@)) == Ok::<
            Seq<SignerView>,
            ErrorView,
        >(list),
        signers::is_first_active(list, issued, i),
        is_challenge_by(c, list[i], c.challenge_id@, bytes, c.issued_at),
        signers::signer_status(states, list[i].public_key) != "retired"@,
        copies_challenge(p, c),
        -CHALLENGE_SKEW <= time::whole_seconds_between(now, c.issued_at) <= CHALLENGE_LIFETIME,
        signed_by_edge(edge_key, device_id, name, primary, p),
        signed_by_previous(previous_key, device_id, name, primary, p),
    ensures
        registration_outcome(runtime, states, device_id, name, primary, now, Some(p)) == Ok::<
            Option<RegistrationView>,
            ErrorView,
        >(Some(proven(list[i], now, p))),
{
    let keys = text::views(runtime.orchestrator_signing_keys@);
    lemma_issuer_is_named(keys, issued, states, p, list, i);
    law_honest_registration_is_trusted(
        runtime,
        states,
        device_id,
        name,
        primary,
        now,
        p,
        list,
        i,
        edge_key,
        previous_key,
    );
}

/// A proof that copies a challenge of the orchestrator is refused while the
/// challenge is not valid, whatever the device signed.
pub proof fn law_issued_challenge_expires(
    runtime: TrustRuntime,
    issued: Seq<SignerState>,
    states: Seq<SignerState>,
    device_id: Seq<char>,
    name: Seq<char>,
    primary: bool,
    now: Timestamp,
    p: ProofView,
    list: Seq<SignerView>,
    i: int,
    c: RegistrationChallengeResponse,
    bytes: Seq<u8>,
)
    requires
        !text::views(runtime.revoked_edge_public_keys@).contains(p.edge_public_key),
        signers::usable(text::views(runtime.orchestrator_signing_keys@)) == Ok::<
            Seq<SignerView>,
            ErrorView,
        >(list),
        signers::is_first_active(list, issued, i),
        is_challenge_by(c, list[i], c.challenge_id@, bytes, c.issued_at),
        signers::signer_status(states, list[i].public_key) != "retired"@,
        copies_challenge(p, c),
        time::whole_seconds_between(now, c.issued_at) < -CHALLENGE_SKEW
            || time::whole_seconds_between(now, c.issued_at) > CHALLENGE_LIFETIME,
    ensures
        registration_outcome(runtime, states, device_id, name, primary, now, Some(p)) == Err::<
            Option<RegistrationView>,
            ErrorView,
        >(
            unauthorized(
                "orchestrator registration challenge is outside the allowed time window"@,
                "orchestrator_challenge_expired"@,
            ),
        ),
{
    let keys = text::views(runtime.orchestrator_signing_keys@);
    lemma_issuer_is_named(keys, issued, states, p, list, i);
    let made = crypto::signature(
        list[i].private_key,
        challenge_message(p.challenge_id, p.challenge, p.issued_at),
    );
    crypto::law_base64_comes_back(made);
    crypto::law_base64_is_trimmed(made);
}

} // verus!
