//! What signers and signed registrations promise: which keys sign, what exactly is
//! signed, and which proofs are believed.

use crate::crypto;
use crate::device_trust::TrustedRegistration;
use crate::error::AppError;
use crate::registration;
use crate::registration::{
    DeviceRegistrationTrustProof, ProofView, RegistrationChallengeResponse, TrustRuntime,
    Verdicts,
};
use crate::signers;
use crate::signers::{
    ConfiguredSigner, OrchestratorTrustSigner, SignerState, SignerUpdate, SignerView,
};
use crate::text;
use crate::text_laws;
use crate::time;
use crate::time::Timestamp;
use vstd::prelude::*;

verus! {

// ---------------------------------------------------------------------------
// Keys and signatures in text
// ---------------------------------------------------------------------------

/// A key or signature is read from base64url text, with any space around it, and
/// must have its exact length. A public key must also be one.
pub proof fn law_decoded_keys(
    value: &str,
    label: &str,
    key: Result<crypto::PrivateKey, AppError>,
    public: Result<crypto::PublicKey, AppError>,
    signature: Result<Vec<u8>, AppError>,
)
    requires
        call_ensures(signers::decode_signing_key, (value, label), key),
        call_ensures(signers::decode_verifying_key, (value, label), public),
        call_ensures(signers::decode_signature, (value, label), signature),
    ensures
        key is Ok <==> (crypto::decoded(text::trim(value@)) matches Some(b) && b.len() == 32),
        key matches Ok(k) ==> crypto::decoded(text::trim(value@)) == Some(k.bytes()),
        public is Ok <==> (crypto::decoded(text::trim(value@)) matches Some(b) && b.len() == 32
            && crypto::is_public_key(b)),
        public matches Ok(k) ==> crypto::decoded(text::trim(value@)) == Some(k.bytes()),
        signature is Ok <==> (crypto::decoded(text::trim(value@)) matches Some(b) && b.len()
            == 64),
        signature matches Ok(s) ==> crypto::decoded(text::trim(value@)) == Some(s@),
        key matches Err(e) ==> e.status is BadRequest,
        public matches Err(e) ==> e.status is BadRequest,
        signature matches Err(e) ==> e.status is BadRequest,
{
}

/// A key id counts from one and shows the beginning of the key.
pub proof fn law_key_id(public_key: &str, index: usize, r: String)
    requires
        call_ensures(signers::orchestrator_key_id, (public_key, index), r),
    ensures
        text::starts_with(r@, "orchestrator-"@ + text::decimal((index + 1) as nat) + "-"@),
        text::ends_with(r@, text::prefix(public_key@, 12)),
        r@.len() == ("orchestrator-"@ + text::decimal((index + 1) as nat) + "-"@).len()
            + text::prefix(public_key@, 12).len(),
{
    let lead = "orchestrator-"@ + text::decimal((index + 1) as nat) + "-"@;
    text_laws::law_contains(lead, text::prefix(public_key@, 12), Seq::empty());
    assert(r@.take(lead.len() as int) =~= lead);
}

// ---------------------------------------------------------------------------
// Configured signers
// ---------------------------------------------------------------------------

#[verifier::rlimit(60)]
proof fn lemma_configured(keys: text::Texts)
    ensures
        signers::configured(keys) is Ok <==> forall|i: int|
            0 <= i < keys.len() ==> (crypto::decoded(
                text::trim(#[trigger] keys[i]),
            ) matches Some(b) && b.len() == 32),
        signers::configured(keys) matches Ok(list) ==> list.len() == keys.len() && forall|i: int|
            0 <= i < keys.len() ==> crypto::decoded(text::trim(#[trigger] keys[i])) == Some(
                list[i].private_key,
            ) && list[i].public_key == crypto::base64url(crypto::public_key(list[i].private_key))
                && list[i].key_id == signers::key_id(list[i].public_key, i as nat),
    decreases keys.len(),
{
    if keys.len() > 0 {
        let front = keys.drop_last();
        let n = front.len() as int;
        lemma_configured(front);
        assert(keys[n] == keys.last());
        assert forall|i: int| 0 <= i < n implies #[trigger] front[i] == keys[i] by {}
        match signers::configured(front) {
            Ok(list) => {
                assert forall|i: int| 0 <= i < n implies (crypto::decoded(
                    text::trim(#[trigger] keys[i]),
                ) matches Some(b) && b.len() == 32) by {
                    assert(front[i] == keys[i]);
                }
                if let Ok(all) = signers::configured(keys) {
                    assert forall|i: int| 0 <= i < keys.len() implies crypto::decoded(
                        text::trim(#[trigger] keys[i]),
                    ) == Some(all[i].private_key) && all[i].public_key == crypto::base64url(
                        crypto::public_key(all[i].private_key),
                    ) && all[i].key_id == signers::key_id(all[i].public_key, i as nat) by {
                        if i < n {
                            assert(all[i] == list[i]);
                            assert(front[i] == keys[i]);
                        }
                    }
                }
            },
            Err(_) => {
                let i = choose|i: int|
                    0 <= i < front.len() && !(crypto::decoded(
                        text::trim(#[trigger] front[i]),
                    ) matches Some(b) && b.len() == 32);
                assert(keys[i] == front[i]);
            },
        }
    }
}

/// Signers are configured where every key can be read. Each keeps the place of
/// its key, signs with that key, and is known by the public half of it.
#[verifier::rlimit(60)]
pub proof fn law_configured_signers(
    keys: &[String],
    r: Result<Vec<ConfiguredSigner>, AppError>,
    loaded: Result<Vec<ConfiguredSigner>, AppError>,
)
    requires
        call_ensures(signers::configured_orchestrator_signers, (keys,), r),
        call_ensures(signers::load_orchestrator_signers, (keys,), loaded),
    ensures
        r is Ok <==> forall|i: int|
            0 <= i < keys@.len() ==> (crypto::decoded(
                text::trim((#[trigger] keys@[i])@),
            ) matches Some(b) && b.len() == 32),
        r matches Ok(list) ==> list@.len() == keys@.len() && forall|i: int|
            0 <= i < keys@.len() ==> crypto::decoded(text::trim((#[trigger] keys@[i])@)) == Some(
                list@[i].key.bytes(),
            ) && list@[i].public_key@ == crypto::base64url(
                crypto::public_key(list@[i].key.bytes()),
            ) && list@[i].key_id@ == signers::key_id(list@[i].public_key@, i as nat),
        loaded is Ok <==> keys@.len() > 0 && r is Ok,
        keys@.len() == 0 ==> (loaded matches Err(e) && e.status is Conflict),
{
    let views = text::views(keys@);
    lemma_configured(views);
    assert forall|i: int| 0 <= i < keys@.len() implies #[trigger] views[i] == keys@[i]@ by {}
    if let Ok(list) = r {
        let shown = signers::signer_views(list@);
        assert(shown.len() == list@.len());
        assert forall|i: int| 0 <= i < keys@.len() implies (crypto::decoded(
            text::trim((#[trigger] keys@[i])@),
        ) matches Some(b) && b.len() == 32) by {
            assert(views[i] == keys@[i]@);
        }
        assert forall|i: int| 0 <= i < keys@.len() implies crypto::decoded(
            text::trim((#[trigger] keys@[i])@),
        ) == Some(list@[i].key.bytes()) && list@[i].public_key@ == crypto::base64url(
            crypto::public_key(list@[i].key.bytes()),
        ) && list@[i].key_id@ == signers::key_id(list@[i].public_key@, i as nat) by {
            assert(views[i] == keys@[i]@);
            assert(shown[i] == list@[i]@);
        }
    } else {
        if forall|i: int|
            0 <= i < keys@.len() ==> (crypto::decoded(
                text::trim((#[trigger] keys@[i])@),
            ) matches Some(b) && b.len() == 32) {
            assert forall|i: int| 0 <= i < views.len() implies (crypto::decoded(
                text::trim(#[trigger] views[i]),
            ) matches Some(b) && b.len() == 32) by {
                assert(views[i] == keys@[i]@);
            }
        }
    }
}

/// The status of a key is what is stored first for it; a key that was never
/// stored is staged.
pub proof fn law_signer_status(states: Seq<SignerState>, public_key: Seq<char>, k: int)
    ensures
        0 <= k < states.len() && states[k].public_key@ == public_key && (forall|j: int|
            0 <= j < k ==> (#[trigger] states[j]).public_key@ != public_key)
            ==> signers::signer_status(states, public_key) == states[k].status@
            && signers::stored_status(states, public_key) == Some(states[k].status@),
        (forall|j: int|
            0 <= j < states.len() ==> (#[trigger] states[j]).public_key@ != public_key)
            ==> signers::signer_status(states, public_key) == "staged"@ && signers::stored_status(
            states,
            public_key,
        ) is None,
    decreases states.len(),
{
    if states.len() > 0 {
        let rest = states.drop_first();
        law_signer_status(rest, public_key, k - 1);
        if 0 < k < states.len() && (forall|j: int|
            0 <= j < k ==> (#[trigger] states[j]).public_key@ != public_key) {
            assert(states[0].public_key@ != public_key);
            assert(rest[k - 1] == states[k]);
            assert forall|j: int| 0 <= j < k - 1 implies (#[trigger] rest[j]).public_key@
                != public_key by {
                assert(rest[j] == states[j + 1]);
            }
        }
        if forall|j: int|
            0 <= j < states.len() ==> (#[trigger] states[j]).public_key@ != public_key {
            assert(states[0].public_key@ != public_key);
            assert forall|j: int| 0 <= j < rest.len() implies (#[trigger] rest[j]).public_key@
                != public_key by {
                assert(rest[j] == states[j + 1]);
            }
        }
    }
}

/// The status under which a key id was stored last counts.
pub proof fn law_status_by_id(states: Seq<SignerState>, id: Seq<char>, k: int)
    requires
        0 <= k < states.len(),
        states[k].key_id@ == id,
        forall|j: int| k < j < states.len() ==> (#[trigger] states[j]).key_id@ != id,
    ensures
        signers::status_by_id(states, id) == Some(states[k].status@),
    decreases states.len(),
{
    if k < states.len() - 1 {
        let front = states.drop_last();
        assert(states.last() == states[states.len() - 1]);
        assert forall|j: int| k < j < front.len() implies (#[trigger] front[j]).key_id@ != id by {
            assert(front[j] == states[j]);
        }
        law_status_by_id(front, id, k);
    }
}

/// The first signer whose key is active signs; without one there is no signer.
pub proof fn law_active_signer(
    list: &[ConfiguredSigner],
    states: &[SignerState],
    r: Result<usize, AppError>,
    k: int,
)
    requires
        call_ensures(signers::active_signer_index, (list, states), r),
    ensures
        r matches Ok(i) ==> i < list@.len() && signers::signer_status(
            states@,
            list@[i as int].public_key@,
        ) == "active"@,
        0 <= k < list@.len() && signers::signer_status(states@, list@[k].public_key@) == "active"@
            ==> (r matches Ok(i) && i <= k),
        r matches Err(e) ==> e.status is Conflict,
{
    let views = signers::signer_views(list@);
    assert(views.len() == list@.len());
    if 0 <= k < list@.len() {
        assert(views[k] == list@[k]@);
    }
    if let Ok(i) = r {
        assert(views[i as int] == list@[i as int]@);
        if 0 <= k < i {
            assert(signers::signer_status(states@, views[k].public_key) != "active"@);
        }
    } else if 0 <= k < list@.len() {
        assert(views[k].public_key == list@[k].public_key@);
    }
}

#[verifier::rlimit(60)]
proof fn lemma_exported(
    list: Seq<SignerView>,
    states: Seq<SignerState>,
    s: signers::TrustSignerView,
)
    ensures
        signers::exported(list, states).contains(s) <==> exists|i: int|
            0 <= i < list.len() && (#[trigger] list[i]).key_id == s.key_id && list[i].public_key
                == s.public_key && signers::signer_status(states, list[i].public_key)
                != "retired"@ && (s.active <==> signers::signer_status(states, list[i].public_key)
                == "active"@),
    decreases list.len(),
{
    if list.len() > 0 {
        let front = list.drop_last();
        let before = signers::exported(front, states);
        let result = signers::exported(list, states);
        lemma_exported(front, states, s);
        assert(list.last() == list[list.len() - 1]);
        if result.contains(s) {
            let k = choose|k: int| 0 <= k < result.len() && result[k] == s;
            if k < before.len() {
                assert(before[k] == s);
                assert(before.contains(s));
                let i = choose|i: int|
                    0 <= i < front.len() && (#[trigger] front[i]).key_id == s.key_id
                        && front[i].public_key == s.public_key && signers::signer_status(
                        states,
                        front[i].public_key,
                    ) != "retired"@ && (s.active <==> signers::signer_status(
                        states,
                        front[i].public_key,
                    ) == "active"@);
                assert(list[i] == front[i]);
            }
        }
        if exists|i: int|
            0 <= i < list.len() && (#[trigger] list[i]).key_id == s.key_id && list[i].public_key
                == s.public_key && signers::signer_status(states, list[i].public_key)
                != "retired"@ && (s.active <==> signers::signer_status(states, list[i].public_key)
                == "active"@) {
            let i = choose|i: int|
                0 <= i < list.len() && (#[trigger] list[i]).key_id == s.key_id
                    && list[i].public_key == s.public_key && signers::signer_status(
                    states,
                    list[i].public_key,
                ) != "retired"@ && (s.active <==> signers::signer_status(
                    states,
                    list[i].public_key,
                ) == "active"@);
            if i < front.len() {
                assert(front[i] == list[i]);
                assert(before.contains(s));
                let k = choose|k: int| 0 <= k < before.len() && before[k] == s;
                assert(result[k] == s);
            } else {
                assert(result[result.len() - 1] == s);
            }
        }
    }
}

/// Edges are told of every signer that is not retired, and of each whether it is
/// the active one.
#[verifier::rlimit(60)]
pub proof fn law_exported_signers(
    list: &[ConfiguredSigner],
    states: &[SignerState],
    r: Vec<OrchestratorTrustSigner>,
    s: signers::TrustSignerView,
)
    requires
        call_ensures(signers::exported_orchestrator_signers, (list, states), r),
    ensures
        signers::trust_signer_views(r@).contains(s) <==> exists|i: int|
            0 <= i < list@.len() && (#[trigger] list@[i]).key_id@ == s.key_id
                && list@[i].public_key@ == s.public_key && signers::signer_status(
                states@,
                list@[i].public_key@,
            ) != "retired"@ && (s.active <==> signers::signer_status(
                states@,
                list@[i].public_key@,
            ) == "active"@),
{
    let views = signers::signer_views(list@);
    lemma_exported(views, states@, s);
    assert forall|i: int| 0 <= i < list@.len() implies #[trigger] views[i] == list@[i]@ by {}
    if signers::trust_signer_views(r@).contains(s) {
        let i = choose|i: int|
            0 <= i < views.len() && (#[trigger] views[i]).key_id == s.key_id && views[i].public_key
                == s.public_key && signers::signer_status(states@, views[i].public_key)
                != "retired"@ && (s.active <==> signers::signer_status(
                states@,
                views[i].public_key,
            ) == "active"@);
        assert(list@[i].key_id@ == s.key_id);
    }
    if exists|i: int|
        0 <= i < list@.len() && (#[trigger] list@[i]).key_id@ == s.key_id && list@[i].public_key@
            == s.public_key && signers::signer_status(states@, list@[i].public_key@) != "retired"@
            && (s.active <==> signers::signer_status(states@, list@[i].public_key@)
            == "active"@) {
        let i = choose|i: int|
            0 <= i < list@.len() && (#[trigger] list@[i]).key_id@ == s.key_id
                && list@[i].public_key@ == s.public_key && signers::signer_status(
                states@,
                list@[i].public_key@,
            ) != "retired"@ && (s.active <==> signers::signer_status(
                states@,
                list@[i].public_key@,
            ) == "active"@);
        assert(views[i].key_id == s.key_id);
    }
}

/// A new key is stored as staged. Only the first configured key, where no stored
/// key is active, is stored as active, so that there is one to sign with.
pub proof fn law_status_of_new_keys(list: Seq<SignerView>, states: Seq<SignerState>, i: int)
    requires
        0 <= i < list.len(),
    ensures
        signers::row_at(list, states, i).status == "active"@ <==> i == 0 && forall|j: int|
            0 <= j < states.len() ==> (#[trigger] states[j]).status@ != "active"@,
        signers::row_at(list, states, i).status == "active"@ || signers::row_at(
            list,
            states,
            i,
        ).status == "staged"@,
        signers::row_at(list, states, i).key_id == list[i].key_id,
        signers::row_at(list, states, i).public_key == list[i].public_key,
{
    reveal_strlit("active");
    reveal_strlit("staged");
    assert("active"@[0] != "staged"@[0]);
}

/// A signer's status can be set where it is configured. The last update is the
/// one that was asked for; any other stages a signer, and there is none unless
/// the signer is to be active.
#[verifier::rlimit(60)]
pub proof fn law_set_status(
    list: &[ConfiguredSigner],
    states: &[SignerState],
    id: &str,
    status: &str,
    reason: Option<&str>,
    r: Result<Vec<SignerUpdate>, AppError>,
    k: int,
)
    requires
        call_ensures(
            signers::set_orchestrator_signer_status,
            (list, states, id, status, reason),
            r,
        ),
    ensures
        r is Ok <==> exists|i: int|
            0 <= i < list@.len() && (#[trigger] list@[i]).key_id@ == id@,
        r matches Err(e) ==> e.status is NotFound,
        r matches Ok(updates) ==> {
            &&& updates@.len() > 0
            &&& updates@.last().key_id@ == id@
            &&& updates@.last().status@ == status@
            &&& text::opt(updates@.last().reason) == text::opt_str(reason)
            &&& status@ != "active"@ ==> updates@.len() == 1
            &&& 0 <= k < updates@.len() - 1 ==> updates@[k].status@ == "staged"@
                && updates@[k].key_id@ != id@ && signers::status_by_id(
                states@,
                updates@[k].key_id@,
            ) != Some("retired"@)
        },
{
    let views = signers::signer_views(list@);
    assert(views.len() == list@.len());
    assert forall|i: int| 0 <= i < list@.len() implies #[trigger] views[i] == list@[i]@ by {}
    if let Ok(updates) = r {
        let shown = signers::update_views(updates@);
        let i = choose|i: int|
            #[trigger] signers::is_first_with_id(views, id@, i) && shown == signers::status_updates(
                views,
                states@,
                i,
                status@,
                text::opt_str(reason),
            );
        assert(views[i] == list@[i]@);
        assert(list@[i].key_id@ == id@);
        assert(shown.len() == updates@.len());
        assert(shown.last() == updates@.last()@);
        if 0 <= k < updates@.len() - 1 {
            assert(shown[k] == updates@[k]@);
            let others = signers::deactivations(views, states@, id@);
            assert(shown[k] == others[k]);
            lemma_deactivations(views, states@, id@, k);
        }
    } else {
        if exists|i: int| 0 <= i < list@.len() && (#[trigger] list@[i]).key_id@ == id@ {
            let i = choose|i: int| 0 <= i < list@.len() && (#[trigger] list@[i]).key_id@ == id@;
            assert(views[i].key_id == id@);
        }
    }
}

proof fn lemma_deactivations(
    list: Seq<SignerView>,
    states: Seq<SignerState>,
    id: Seq<char>,
    k: int,
)
    requires
        0 <= k < signers::deactivations(list, states, id).len(),
    ensures
        signers::deactivations(list, states, id)[k].status == "staged"@,
        signers::deactivations(list, states, id)[k].key_id != id,
        signers::status_by_id(states, signers::deactivations(list, states, id)[k].key_id) != Some(
            "retired"@,
        ),
    decreases list.len(),
{
    if list.len() > 0 {
        let front = list.drop_last();
        let before = signers::deactivations(front, states, id);
        if k < before.len() {
            lemma_deactivations(front, states, id, k);
            assert(signers::deactivations(list, states, id)[k] == before[k]);
        }
    }
}

// ---------------------------------------------------------------------------
// What is signed
// ---------------------------------------------------------------------------

/// The text is in one line.
pub open spec fn is_line(s: Seq<char>) -> bool {
    forall|i: int| 0 <= i < s.len() ==> #[trigger] s[i] != '\n'
}

proof fn lemma_next_line(line: Seq<char>, rest: Seq<char>)
    requires
        is_line(line),
    ensures
        text::split_by(line + "\n"@ + rest, text::just('\n')) == seq![line] + text::split_by(
            rest,
            text::just('\n'),
        ),
{
    let f = text::just('\n');
    reveal_strlit("\n");
    assert(line + "\n"@ + rest =~= line.push('\n') + rest);
    assert forall|i: int| 0 <= i < line.len() implies !f(#[trigger] line[i]) by {
        assert(line[i] != '\n');
    }
    text_laws::law_split_without_separator(line, f);
    text_laws::law_split_at_separator(line, '\n', rest, f);
}

proof fn lemma_last_line(line: Seq<char>)
    requires
        is_line(line),
    ensures
        text::split_by(line, text::just('\n')) == seq![line],
{
    let f = text::just('\n');
    assert forall|i: int| 0 <= i < line.len() implies !f(#[trigger] line[i]) by {
        assert(line[i] != '\n');
    }
    text_laws::law_split_without_separator(line, f);
}

/// The orchestrator signs its challenge as four lines: what it is, its id, the
/// challenge and the instant.
#[verifier::rlimit(60)]
pub proof fn law_signed_challenge(id: &str, challenge: &str, instant: &str, r: String)
    requires
        call_ensures(registration::challenge_payload_at, (id, challenge, instant), r),
        is_line(id@),
        is_line(challenge@),
        is_line(instant@),
    ensures
        text::split_by(r@, text::just('\n')) == seq![
            "elowen-orchestrator-registration-challenge"@,
            id@,
            challenge@,
            instant@,
        ],
{
    let title = "elowen-orchestrator-registration-challenge"@;
    reveal_strlit("elowen-orchestrator-registration-challenge");
    reveal_strlit("elowen-orchestrator-registration-challenge\n");
    reveal_strlit("\n");
    assert("elowen-orchestrator-registration-challenge\n"@ =~= title + "\n"@);
    let c = challenge@ + "\n"@ + instant@;
    let b = id@ + "\n"@ + c;
    assert(r@ =~= title + "\n"@ + b);
    lemma_next_line(title, b);
    lemma_next_line(id@, c);
    lemma_next_line(challenge@, instant@);
    lemma_last_line(instant@);
    assert(text::split_by(r@, text::just('\n')) =~= seq![title, id@, challenge@, instant@]);
}

/// An edge signs its registration as ten lines: what it is, the device, its name,
/// whether it is primary, the challenge that it answers with its instant, the
/// orchestrator's key, and its own key.
#[verifier::rlimit(60)]
pub proof fn law_signed_registration(
    device_id: &str,
    name: &str,
    primary: bool,
    p: DeviceRegistrationTrustProof,
    edge_key: &str,
    instant: &str,
    r: String,
)
    requires
        call_ensures(
            registration::edge_payload_at,
            (device_id, name, primary, &p, edge_key, instant),
            r,
        ),
        is_line(device_id@),
        is_line(name@),
        is_line(p.orchestrator_challenge_id@),
        is_line(p.orchestrator_challenge@),
        is_line(instant@),
        is_line(p.orchestrator_key_id@),
        is_line(p.orchestrator_public_key@),
        is_line(edge_key@),
    ensures
        text::split_by(r@, text::just('\n')) == seq![
            "elowen-edge-registration"@,
            device_id@,
            name@,
            if primary {
                "true"@
            } else {
                "false"@
            },
            p.orchestrator_challenge_id@,
            p.orchestrator_challenge@,
            instant@,
            p.orchestrator_key_id@,
            p.orchestrator_public_key@,
            edge_key@,
        ],
{
    let n = "\n"@;
    let title = "elowen-edge-registration"@;
    let flag = if primary {
        "true"@
    } else {
        "false"@
    };
    lemma_flag_line(primary);
    lemma_edge_title();
    let e8 = p.orchestrator_public_key@ + n + edge_key@;
    let e7 = p.orchestrator_key_id@ + n + e8;
    let e6 = instant@ + n + e7;
    let e5 = p.orchestrator_challenge@ + n + e6;
    let e4 = p.orchestrator_challenge_id@ + n + e5;
    let e3 = flag + n + e4;
    let e2 = name@ + n + e3;
    let e1 = device_id@ + n + e2;
    lemma_edge_text(device_id@, name@, flag, p@, edge_key@, instant@);
    assert(r@ == title + n + e1);
    lemma_next_line(title, e1);
    lemma_next_line(device_id@, e2);
    lemma_next_line(name@, e3);
    lemma_next_line(flag, e4);
    lemma_next_line(p.orchestrator_challenge_id@, e5);
    lemma_next_line(p.orchestrator_challenge@, e6);
    lemma_next_line(instant@, e7);
    lemma_next_line(p.orchestrator_key_id@, e8);
    lemma_next_line(p.orchestrator_public_key@, edge_key@);
    lemma_last_line(edge_key@);
    assert(text::split_by(r@, text::just('\n')) =~= seq![
        title,
        device_id@,
        name@,
        flag,
        p.orchestrator_challenge_id@,
        p.orchestrator_challenge@,
        instant@,
        p.orchestrator_key_id@,
        p.orchestrator_public_key@,
        edge_key@,
    ]);
}

proof fn lemma_flag_line(primary: bool)
    ensures
        is_line("true"@),
        is_line("false"@),
        registration::flag_text(primary) == if primary {
            "true"@
        } else {
            "false"@
        },
{
    reveal_strlit("true");
    reveal_strlit("false");
}

proof fn lemma_edge_title()
    ensures
        "elowen-edge-registration\n"@ == "elowen-edge-registration"@ + "\n"@,
        is_line("elowen-edge-registration"@),
{
    reveal_strlit("elowen-edge-registration");
    reveal_strlit("elowen-edge-registration\n");
    reveal_strlit("\n");
    assert("elowen-edge-registration\n"@ =~= "elowen-edge-registration"@ + "\n"@);
}

proof fn lemma_assoc(a: Seq<char>, b: Seq<char>, c: Seq<char>, d: Seq<char>)
    ensures
        a + b + c + d == a + (b + c + d),
{
    assert(a + b + c + d =~= a + (b + c + d));
}

#[verifier::rlimit(60)]
proof fn lemma_edge_text(
    device_id: Seq<char>,
    name: Seq<char>,
    flag: Seq<char>,
    p: ProofView,
    key: Seq<char>,
    instant: Seq<char>,
)
    ensures
        "elowen-edge-registration\n"@ + device_id + "\n"@ + name + "\n"@ + flag + "\n"@
            + p.challenge_id + "\n"@ + p.challenge + "\n"@ + instant + "\n"@
            + p.orchestrator_key_id + "\n"@ + p.orchestrator_public_key + "\n"@ + key
            == "elowen-edge-registration"@ + "\n"@ + (device_id + "\n"@ + (name + "\n"@ + (flag
            + "\n"@ + (p.challenge_id + "\n"@ + (p.challenge + "\n"@ + (instant + "\n"@ + (
        p.orchestrator_key_id + "\n"@ + (p.orchestrator_public_key + "\n"@ + key)))))))),
{
    lemma_edge_title();
    let n = "\n"@;
    let a0 = "elowen-edge-registration\n"@;
    let a1 = a0 + device_id + n;
    let a2 = a1 + name + n;
    let a3 = a2 + flag + n;
    let a4 = a3 + p.challenge_id + n;
    let a5 = a4 + p.challenge + n;
    let a6 = a5 + instant + n;
    let a7 = a6 + p.orchestrator_key_id + n;
    let e8 = p.orchestrator_public_key + n + key;
    let e7 = p.orchestrator_key_id + n + e8;
    let e6 = instant + n + e7;
    let e5 = p.challenge + n + e6;
    let e4 = p.challenge_id + n + e5;
    let e3 = flag + n + e4;
    let e2 = name + n + e3;
    lemma_assoc(a7, p.orchestrator_public_key, n, key);
    lemma_assoc(a6, p.orchestrator_key_id, n, e8);
    lemma_assoc(a5, instant, n, e7);
    lemma_assoc(a4, p.challenge, n, e6);
    lemma_assoc(a3, p.challenge_id, n, e5);
    lemma_assoc(a2, flag, n, e4);
    lemma_assoc(a1, name, n, e3);
    lemma_assoc(a0, device_id, n, e2);
}

// ---------------------------------------------------------------------------
// What is believed
// ---------------------------------------------------------------------------

/// A registration without proof passes, untrusted, unless proof is required.
pub proof fn law_registration_without_evidence(
    runtime: TrustRuntime,
    states: &[SignerState],
    device_id: &str,
    name: &str,
    primary: bool,
    now: Timestamp,
    r: Result<Option<TrustedRegistration>, AppError>,
)
    requires
        call_ensures(
            registration::verify_registration_trust,
            (&runtime, states, device_id, name, primary, now, None),
            r,
        ),
    ensures
        runtime.require_trusted_edge_registration ==> (r matches Err(e) && e.status is Unauthorized
            && text::opt(e.code) == Some("trusted_registration_required"@)),
        !runtime.require_trusted_edge_registration ==> (r matches Ok(t) && t is None),
{
}

/// A key on the list of revoked ones is turned away before anything else.
pub proof fn law_revoked_key_is_not_believed(
    runtime: TrustRuntime,
    states: &[SignerState],
    device_id: &str,
    name: &str,
    primary: bool,
    now: Timestamp,
    p: &DeviceRegistrationTrustProof,
    r: Result<Option<TrustedRegistration>, AppError>,
)
    requires
        call_ensures(
            registration::verify_registration_trust,
            (&runtime, states, device_id, name, primary, now, Some(p)),
            r,
        ),
        text::views(runtime.revoked_edge_public_keys@).contains(p.edge_public_key@),
    ensures
        r matches Err(e) && e.status is Unauthorized && text::opt(e.code) == Some(
            "edge_key_revoked"@,
        ),
{
}

/// The message, key and signature belong together.
pub open spec fn is_signed(key: Seq<char>, signature: Seq<char>, message: Seq<char>) -> bool {
    crypto::decoded(text::trim(key)) matches Some(k) && crypto::decoded(
        text::trim(signature),
    ) matches Some(s) && k.len() == 32 && s.len() == 64 && crypto::is_public_key(k)
        && crypto::accepts(k, message, s)
}

/// A proof is believed exactly where the orchestrator that it names by key and by
/// id is configured and not retired, did sign the challenge, at most ten minutes
/// ago and no more than one minute ahead, where the edge signed with the key that
/// it registers, and where a previous key that is given signed too. What is then
/// believed is what the proof says.
#[verifier::rlimit(60)]
pub proof fn law_believed_proofs(
    signer: ConfiguredSigner,
    now: Timestamp,
    p: DeviceRegistrationTrustProof,
    device_id: Seq<char>,
    name: Seq<char>,
    primary: bool,
    said: Verdicts,
    r: Result<TrustedRegistration, AppError>,
)
    requires
        said == registration::verdicts(signer@, device_id, name, primary, p@),
        call_ensures(registration::judge_registration, (&signer, now, &p, &said), r),
    ensures
        r is Ok <==> {
            &&& crypto::decoded(text::trim(p.orchestrator_signature@)) matches Some(s) && s.len()
                == 64 && crypto::accepts(
                crypto::public_key(signer.key.bytes()),
                registration::challenge_message(
                    p.orchestrator_challenge_id@,
                    p.orchestrator_challenge@,
                    p.orchestrator_challenge_issued_at,
                ),
                s,
            )
            &&& -60 <= time::whole_seconds_between(now, p.orchestrator_challenge_issued_at) <= 600
            &&& is_signed(
                p.edge_public_key@,
                p.edge_signature@,
                registration::edge_message(device_id, name, primary, p@, p.edge_public_key@),
            )
            &&& p.previous_edge_public_key is Some <==> p.previous_edge_signature is Some
            &&& p.previous_edge_public_key matches Some(key) ==> is_signed(
                key@,
                p.previous_edge_signature.unwrap()@,
                registration::edge_message(device_id, name, primary, p@, key@),
            )
        },
        r matches Ok(t) ==> t.edge_public_key@ == p.edge_public_key@ && t.registered_at == now
            && t.orchestrator_key_id@ == signer.key_id@ && t.orchestrator_public_key@
            == signer.public_key@ && t.registration_intent == p.registration_intent && text::opt(
            t.previous_edge_public_key,
        ) == text::opt(p.previous_edge_public_key),
{
}

/// A challenge is judged by the signer that the proof names both by key and by
/// id. A signer that matches in one only, is retired or is not configured is not
/// believed.
#[verifier::rlimit(60)]
pub proof fn law_named_signer(
    list: &[ConfiguredSigner],
    states: &[SignerState],
    p: DeviceRegistrationTrustProof,
    r: Result<usize, AppError>,
)
    requires
        call_ensures(registration::find_challenge_signer, (list, states, &p), r),
    ensures
        r matches Ok(i) ==> i < list@.len() && list@[i as int].public_key@
            == p.orchestrator_public_key@ && list@[i as int].key_id@ == p.orchestrator_key_id@
            && signers::signer_status(states@, p.orchestrator_public_key@) != "retired"@,
        r matches Err(e) ==> e.status is Unauthorized,
        (forall|i: int|
            0 <= i < list@.len() ==> (#[trigger] list@[i]).public_key@ != p.orchestrator_public_key@
                && list@[i].key_id@ != p.orchestrator_key_id@) ==> (r matches Err(e) && text::opt(
            e.code,
        ) == Some("orchestrator_signer_untrusted"@)),
{
    let views = signers::signer_views(list@);
    assert(views.len() == list@.len());
    assert forall|i: int| 0 <= i < list@.len() implies #[trigger] views[i] == list@[i]@ by {}
    if let Ok(i) = r {
        assert(views[i as int] == list@[i as int]@);
        if exists|k: int| #[trigger] registration::is_named_signer(views, p@, k) {
            let k = choose|k: int| #[trigger] registration::is_named_signer(views, p@, k);
            assert(views[k].public_key == p@.orchestrator_public_key);
        }
    }
    if forall|i: int|
        0 <= i < list@.len() ==> (#[trigger] list@[i]).public_key@ != p.orchestrator_public_key@
            && list@[i].key_id@ != p.orchestrator_key_id@ {
        if exists|k: int| #[trigger] registration::is_named_signer(views, p@, k) {
            let k = choose|k: int| #[trigger] registration::is_named_signer(views, p@, k);
            assert(views[k] == list@[k]@);
            assert(list@[k].public_key@ != p.orchestrator_public_key@);
        }
    }
}

/// Where the named signer is configured and in use, it is found.
pub proof fn law_named_signer_is_found(
    list: &[ConfiguredSigner],
    states: &[SignerState],
    p: DeviceRegistrationTrustProof,
    r: Result<usize, AppError>,
    i: int,
)
    requires
        call_ensures(registration::find_challenge_signer, (list, states, &p), r),
        0 <= i < list@.len(),
        list@[i].public_key@ == p.orchestrator_public_key@,
        list@[i].key_id@ == p.orchestrator_key_id@,
        forall|j: int|
            0 <= j < i ==> (#[trigger] list@[j]).public_key@ != p.orchestrator_public_key@
                && list@[j].key_id@ != p.orchestrator_key_id@,
    ensures
        r is Ok <==> signers::signer_status(states@, p.orchestrator_public_key@) != "retired"@,
        r matches Err(e) ==> text::opt(e.code) == Some("orchestrator_signer_retired"@),
{
    let views = signers::signer_views(list@);
    assert(views.len() == list@.len());
    assert forall|j: int| 0 <= j < list@.len() implies #[trigger] views[j] == list@[j]@ by {}
    assert(registration::is_named_signer(views, p@, i));
    let k = choose|k: int| #[trigger] registration::is_named_signer(views, p@, k);
    if k < i {
        assert(views[k] == list@[k]@);
        assert(list@[k].public_key@ != p.orchestrator_public_key@);
    } else if i < k {
        assert(views[i].public_key != p@.orchestrator_public_key);
    }
}

/// A challenge is issued by the first active signer, over the bytes that were
/// drawn, and comes with the signers that an edge may believe.
#[verifier::rlimit(60)]
pub proof fn law_issued_challenge(
    list: &[ConfiguredSigner],
    states: &[SignerState],
    id: String,
    bytes: &[u8],
    at: Timestamp,
    r: Result<RegistrationChallengeResponse, AppError>,
)
    requires
        call_ensures(registration::challenge_from, (list, states, id, bytes, at), r),
    ensures
        r is Ok <==> exists|i: int|
            0 <= i < list@.len() && signers::signer_status(
                states@,
                (#[trigger] list@[i]).public_key@,
            ) == "active"@,
        r matches Err(e) ==> e.status is Conflict,
        r matches Ok(c) ==> c.challenge_id@ == id@ && c.challenge@ == crypto::base64url(bytes@)
            && c.issued_at == at && signers::signer_status(states@, c.orchestrator_public_key@)
            == "active"@ && (exists|i: int|
            0 <= i < list@.len() && (#[trigger] list@[i]).public_key@ == c.orchestrator_public_key@
                && list@[i].key_id@ == c.orchestrator_key_id@ && c.signature@ == crypto::base64url(
                crypto::signature(
                    list@[i].key.bytes(),
                    registration::challenge_message(id@, crypto::base64url(bytes@), at),
                ),
            )),
{
    let views = signers::signer_views(list@);
    assert(views.len() == list@.len());
    assert forall|i: int| 0 <= i < list@.len() implies #[trigger] views[i] == list@[i]@ by {}
    if let Ok(c) = r {
        let i = choose|i: int|
            #[trigger] signers::is_first_active(views, states@, i)
                && registration::is_challenge_by(c, views[i], id@, bytes@, at);
        assert(views[i] == list@[i]@);
        assert(list@[i].public_key@ == c.orchestrator_public_key@);
    } else {
        if exists|i: int|
            0 <= i < list@.len() && signers::signer_status(
                states@,
                (#[trigger] list@[i]).public_key@,
            ) == "active"@ {
            let i = choose|i: int|
                0 <= i < list@.len() && signers::signer_status(
                    states@,
                    (#[trigger] list@[i]).public_key@,
                ) == "active"@;
            assert(views[i].public_key == list@[i].public_key@);
        }
    }
}

// ---------------------------------------------------------------------------
// Stored signers and payloads
// ---------------------------------------------------------------------------

/// The status of a key is read as it is stored, and what is stored for new keys
/// leaves every stored key alone.
#[verifier::rlimit(60)]
pub proof fn law_stored_signers(
    list: &[ConfiguredSigner],
    states: &[SignerState],
    public_key: &str,
    status: String,
    updates: Vec<SignerUpdate>,
    k: int,
)
    requires
        call_ensures(signers::status_for, (states, public_key), status),
        call_ensures(signers::sync_configured_signers, (list, states), updates),
    ensures
        status@ == signers::signer_status(states@, public_key@),
        0 <= k < updates@.len() ==> {
            &&& signers::stored_status(states@, updates@[k].public_key@) is None
            &&& updates@[k].reason is None
            &&& updates@[k].status@ == "active"@ || updates@[k].status@ == "staged"@
            &&& updates@[k].status@ == "active"@ ==> k == 0 && (forall|j: int|
                0 <= j < states@.len() ==> (#[trigger] states@[j]).status@ != "active"@)
                && updates@[k].public_key@ == list@[0].public_key@
            &&& exists|i: int|
                0 <= i < list@.len() && (#[trigger] list@[i]).public_key@
                    == updates@[k].public_key@ && list@[i].key_id@ == updates@[k].key_id@
        },
        (forall|j: int| 0 <= j < states@.len() ==> (#[trigger] states@[j]).status@ != "active"@)
            && list@.len() > 0 && signers::stored_status(states@, list@[0].public_key@) is None
            ==> updates@.len() > 0 && updates@[0].status@ == "active"@ && updates@[0].public_key@
            == list@[0].public_key@,
{
    let views = signers::signer_views(list@);
    let shown = signers::update_views(updates@);
    assert(views.len() == list@.len());
    assert(shown.len() == updates@.len());
    assert forall|i: int| 0 <= i < list@.len() implies #[trigger] views[i] == list@[i]@ by {}
    if 0 <= k < updates@.len() {
        assert(shown[k] == updates@[k]@);
        let i = signers::law_sync_stores_public_data(views, states@, k);
        assert(views[i] == list@[i]@);
        law_status_of_new_keys(views, states@, i);
        assert(list@[i].public_key@ == updates@[k].public_key@);
        if updates@[k].status@ == "active"@ {
            lemma_first_row(views, states@);
            lemma_row_order(views, states@, k);
        }
    }
    if list@.len() > 0 && signers::stored_status(states@, list@[0].public_key@) is None {
        assert(views[0] == list@[0]@);
        lemma_first_row(views, states@);
        law_status_of_new_keys(views, states@, 0);
        assert(shown[0] == updates@[0]@);
    }
}

proof fn lemma_first_row(list: Seq<SignerView>, states: Seq<SignerState>)
    ensures
        list.len() > 0 && signers::stored_status(states, list[0].public_key) is None
            ==> signers::sync_updates(list, states).len() > 0 && signers::sync_updates(
            list,
            states,
        )[0] == signers::row_at(list, states, 0),
    decreases list.len(),
{
    if list.len() > 1 {
        let front = list.drop_last();
        lemma_first_row(front, states);
        assert(front[0] == list[0]);
    } else if list.len() == 1 {
        assert(signers::sync_updates(list.drop_last(), states) =~= Seq::empty());
    }
}

proof fn lemma_row_order(list: Seq<SignerView>, states: Seq<SignerState>, k: int)
    requires
        0 <= k < signers::sync_updates(list, states).len(),
        signers::sync_updates(list, states)[k].status == "active"@,
    ensures
        k == 0,
    decreases list.len(),
{
    reveal_strlit("active");
    reveal_strlit("staged");
    assert("active"@[0] != "staged"@[0]);
    if list.len() > 0 {
        let front = list.drop_last();
        let before = signers::sync_updates(front, states);
        if k < before.len() {
            assert(signers::sync_updates(list, states)[k] == before[k]);
            lemma_row_order(front, states, k);
        } else if list.len() == 1 {
            assert(before =~= Seq::empty());
        }
    }
}

/// What an edge signs with its own key and with an earlier one differs in the last
/// line only, and says when the challenge was issued.
#[verifier::rlimit(60)]
pub proof fn law_registration_payloads(
    device_id: &str,
    name: &str,
    primary: bool,
    p: DeviceRegistrationTrustProof,
    key: &str,
    own: String,
    other: String,
    at: String,
    instant: &str,
)
    requires
        call_ensures(
            registration::edge_registration_payload,
            (device_id, name, primary, &p),
            own,
        ),
        call_ensures(
            registration::edge_registration_payload_with_edge_key,
            (device_id, name, primary, &p, key),
            other,
        ),
        instant@ == time::rfc3339_text(
            p.orchestrator_challenge_issued_at.secs(),
            p.orchestrator_challenge_issued_at.nanos(),
        ),
        call_ensures(
            registration::edge_payload_at,
            (device_id, name, primary, &p, key, instant),
            at,
        ),
    ensures
        other@ == at@,
        key@ == p.edge_public_key@ ==> own@ == other@,
        text::ends_with(own@, "\n"@ + p.edge_public_key@),
        text::ends_with(other@, "\n"@ + key@),
{
    lemma_ends_with_key(own@, "\n"@, p.edge_public_key@, device_id@, name@, primary, p@);
    lemma_ends_with_key(other@, "\n"@, key@, device_id@, name@, primary, p@);
}

#[verifier::rlimit(60)]
proof fn lemma_ends_with_key(
    message: Seq<char>,
    sep: Seq<char>,
    key: Seq<char>,
    device_id: Seq<char>,
    name: Seq<char>,
    primary: bool,
    p: ProofView,
)
    requires
        sep == "\n"@,
        message == registration::edge_message(device_id, name, primary, p, key),
    ensures
        text::ends_with(message, sep + key),
{
    let n = (message.len() - (sep + key).len()) as int;
    assert(message.skip(n) =~= sep + key);
}

/// The challenge that is signed at an instant names that instant.
pub proof fn law_challenge_payloads(
    id: &str,
    challenge: &str,
    issued_at: Timestamp,
    instant: &str,
    r: String,
    at: String,
)
    requires
        call_ensures(registration::orchestrator_challenge_payload, (id, challenge, issued_at), r),
        instant@ == time::rfc3339_text(issued_at.secs(), issued_at.nanos()),
        call_ensures(registration::challenge_payload_at, (id, challenge, instant), at),
    ensures
        r@ == at@,
{
}

/// Verification is needed exactly for a proof whose key is not on the list of
/// revoked ones.
pub proof fn law_when_to_verify(
    runtime: TrustRuntime,
    evidence: Option<&DeviceRegistrationTrustProof>,
    r: Result<bool, AppError>,
)
    requires
        call_ensures(registration::needs_verification, (&runtime, evidence), r),
    ensures
        evidence is None ==> (r is Ok <==> !runtime.require_trusted_edge_registration) && (
        r matches Ok(more) ==> !more),
        evidence matches Some(p) ==> (r is Ok <==> !text::views(
            runtime.revoked_edge_public_keys@,
        ).contains(p.edge_public_key@)) && (r matches Ok(more) ==> more),
        r matches Err(e) ==> e.status is Unauthorized,
{
}

/// A fresh challenge has an id and 32 drawn bytes, is signed by the active signer
/// and comes with the signers that an edge may believe.
pub proof fn law_fresh_challenge(
    list: &[ConfiguredSigner],
    states: &[SignerState],
    at: Timestamp,
    r: Result<RegistrationChallengeResponse, AppError>,
)
    requires
        call_ensures(registration::new_registration_challenge, (list, states, at), r),
    ensures
        r matches Ok(c) ==> crate::ids::is_id(c.challenge_id@) && c.issued_at == at
            && signers::signer_status(states@, c.orchestrator_public_key@) == "active"@
            && exists|bytes: Seq<u8>|
            bytes.len() == 32 && c.challenge@ == #[trigger] crypto::base64url(bytes),
        r matches Err(e) ==> e.status is Conflict && forall|i: int|
            0 <= i < list@.len() ==> signers::signer_status(
                states@,
                (#[trigger] list@[i]).public_key@,
            ) != "active"@,
{
    let views = signers::signer_views(list@);
    assert(views.len() == list@.len());
    assert forall|i: int| 0 <= i < list@.len() implies #[trigger] views[i] == list@[i]@ by {}
    if let Err(e) = r {
        assert forall|i: int| 0 <= i < list@.len() implies signers::signer_status(
            states@,
            (#[trigger] list@[i]).public_key@,
        ) != "active"@ by {
            assert(views[i].public_key == list@[i].public_key@);
        }
    }
}

} // verus!
