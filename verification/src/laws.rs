//! Properties that hold across the modules on devices.

use crate::device_models;
use crate::device_models::{DeviceView, TrustView};
use crate::device_trust;
use crate::device_trust::RegistrationView;
use crate::devices;
use crate::dispatch;
use crate::error::ErrorView;
use crate::order;
use crate::order::RepositoryView;
use crate::text;
use crate::text_lemmas;
use crate::time::Timestamp;
use vstd::prelude::*;

verus! {

// ---------------------------------------------------------------------------
// Trust
// ---------------------------------------------------------------------------

/// A device whose trust was withdrawn is turned away whatever it proves.
pub proof fn law_revoked_device_is_turned_away(t: TrustView, r: RegistrationView)
    requires
        t.revoked_at is Some,
    ensures
        device_trust::next_trust(t, Some(r)) matches Err(e) && e.status is Unauthorized,
{
}

/// A key that was revoked for a device does not enroll it again.
pub proof fn law_revoked_key_is_turned_away(t: TrustView, r: RegistrationView)
    requires
        t.revoked_edge_public_keys.contains(r.edge_public_key),
    ensures
        device_trust::next_trust(t, Some(r)) matches Err(e) && e.status is Unauthorized,
{
}

/// Another key takes the place of the present one only where the registration
/// says that it should.
pub proof fn law_other_key_needs_intent(t: TrustView, r: RegistrationView)
    requires
        t.current_edge_public_key matches Some(key) && key != r.edge_public_key,
        r.registration_intent is Enroll,
    ensures
        device_trust::next_trust(t, Some(r)) is Err,
{
}

/// A revocation holds: once stored and read again, the device has the status of
/// it, gets no work, and no registration brings it back.
pub proof fn law_revocation_holds(
    t: TrustView,
    key: Seq<char>,
    reason: Option<Seq<char>>,
    primary: bool,
    now: Timestamp,
    device: DeviceView,
    r: RegistrationView,
)
    requires
        device.trust == device_models::normal_trust(
            device_trust::revoked(t, key, reason, primary, now),
            None,
            None,
        ),
    ensures
        device.trust.status is Revoked,
        device.trust.revoked_edge_public_keys.contains(key),
        !dispatch::is_dispatchable(device),
        device_trust::next_trust(device.trust, Some(r)) is Err,
{
    let list = t.revoked_edge_public_keys;
    order::law_by_text_is_order();
    order::law_as_set(list.push(key), order::by_text());
    assert(list.push(key)[list.len() as int] == key);
    let stored = device_trust::revoked(t, key, reason, primary, now).revoked_edge_public_keys;
    assert(stored.contains(key));
    order::law_as_set(stored, order::by_text());
}

/// A rotation keeps the old key on record and marks the device until someone
/// has looked at it: it gets no work.
pub proof fn law_rotation_is_marked(
    t: TrustView,
    r: RegistrationView,
    old_key: Seq<char>,
    device: DeviceView,
)
    requires
        t.current_edge_public_key == Some(old_key),
        old_key != r.edge_public_key,
        device_trust::next_trust(t, Some(r)) matches Ok(next) && device.trust
            == device_trust::finalized(next),
    ensures
        device.trust.status is Rotated,
        device.trust.current_edge_public_key == Some(r.edge_public_key),
        device.trust.previous_edge_public_keys.contains(old_key),
        !dispatch::is_dispatchable(device),
{
    let list = t.previous_edge_public_keys.push(old_key);
    order::law_by_text_is_order();
    order::law_as_set(list, order::by_text());
    assert(list[list.len() - 1] == old_key);
}

/// Once its trust is final, a device gets work exactly where it is trusted.
pub proof fn law_work_goes_to_trusted_devices(t: TrustView, device: DeviceView)
    requires
        device.trust == device_trust::finalized(t),
    ensures
        dispatch::is_dispatchable(device) <==> t.status is Trusted,
{
}

/// A first enrollment with proof makes the device trusted and gives it work.
pub proof fn law_first_enrollment(r: RegistrationView, device: DeviceView)
    requires
        device.trust == device_trust::finalized(
            device_trust::enrolled(device_models::no_trust(), r),
        ),
    ensures
        device_trust::next_trust(device_models::no_trust(), Some(r)) == Ok::<TrustView, ErrorView>(
            device_trust::enrolled(device_models::no_trust(), r),
        ),
        device.trust.status is Trusted,
        device.trust.current_edge_public_key == Some(r.edge_public_key),
        dispatch::is_dispatchable(device),
{
}

/// A registration without proof never makes a device fit for work, whatever
/// was stored of it before.
pub proof fn law_no_work_without_proof(
    t: TrustView,
    legacy_key: Option<Seq<char>>,
    legacy_at: Option<Timestamp>,
    device: DeviceView,
)
    requires
        device_trust::next_trust(
            device_models::normal_trust(t, legacy_key, legacy_at),
            None,
        ) matches Ok(next) && device.trust == device_trust::finalized(next),
    ensures
        !dispatch::is_dispatchable(device),
{
}

// ---------------------------------------------------------------------------
// Repositories
// ---------------------------------------------------------------------------

proof fn lemma_visible_repositories(list: Seq<RepositoryView>, hidden: text::Texts)
    ensures
        forall|r: RepositoryView| #[trigger]
            devices::visible_repositories(list, hidden).contains(r) ==> !hidden.contains(r.0),
    decreases list.len(),
{
    if list.len() > 0 {
        let before = devices::visible_repositories(list.drop_last(), hidden);
        lemma_visible_repositories(list.drop_last(), hidden);
        let result = devices::visible_repositories(list, hidden);
        assert forall|r: RepositoryView| #[trigger] result.contains(r) implies !hidden.contains(
            r.0,
        ) by {
            let k = choose|k: int| 0 <= k < result.len() && result[k] == r;
            if k < before.len() {
                assert(before[k] == r);
                assert(before.contains(r));
            }
        }
    }
}

proof fn lemma_visible_names(names: text::Texts, hidden: text::Texts)
    ensures
        forall|r: RepositoryView| #[trigger]
            devices::visible_names(names, hidden).contains(r) ==> !hidden.contains(r.0),
    decreases names.len(),
{
    if names.len() > 0 {
        let before = devices::visible_names(names.drop_last(), hidden);
        lemma_visible_names(names.drop_last(), hidden);
        let result = devices::visible_names(names, hidden);
        assert forall|r: RepositoryView| #[trigger] result.contains(r) implies !hidden.contains(
            r.0,
        ) by {
            let k = choose|k: int| 0 <= k < result.len() && result[k] == r;
            if k < before.len() {
                assert(before[k] == r);
                assert(before.contains(r));
            }
        }
    }
}

/// No job may choose a repository that the device hides.
pub proof fn law_hidden_repositories_stay_hidden(device: DeviceView, name: Seq<char>)
    requires
        device.hidden_repos.contains(name),
    ensures
        !devices::selectable_names(device).contains(name),
{
    let hidden = device.hidden_repos;
    let a = devices::visible_repositories(device.repositories, hidden);
    let b = devices::visible_names(device.allowed_repos, hidden);
    let c = devices::visible_names(device.discovered_repos, hidden);
    let all = a + b + c;
    lemma_visible_repositories(device.repositories, hidden);
    lemma_visible_names(device.allowed_repos, hidden);
    lemma_visible_names(device.discovered_repos, hidden);
    order::law_by_repository_is_order();
    order::law_by_text_is_order();
    order::law_as_set(all, order::by_repository());
    let set = devices::selectable(device);
    let names = devices::repository_names(set);
    order::law_as_set(names, order::by_text());
    if names.contains(name) {
        let k = choose|k: int| 0 <= k < names.len() && names[k] == name;
        let r = set[k];
        assert(set.contains(r));
        assert(all.contains(r));
        let i = choose|i: int| 0 <= i < all.len() && all[i] == r;
        if i < a.len() {
            assert(a[i] == r);
            assert(a.contains(r));
        } else if i < a.len() + b.len() {
            assert(b[i - a.len()] == r);
            assert(b.contains(r));
        } else {
            assert(c[i - a.len() - b.len()] == r);
            assert(c.contains(r));
        }
    }
}

/// The branches are in their clean form.
pub open spec fn are_clean_branches(branches: text::Texts) -> bool {
    order::ascending(branches, order::by_text()) && forall|i: int| #![trigger branches[i]]
        0 <= i < branches.len() ==> branches[i].len() > 0 && text::trim(branches[i]) == branches[i]
}

proof fn lemma_non_empty_all(list: text::Texts)
    requires
        forall|i: int| #![trigger list[i]] 0 <= i < list.len() ==> list[i].len() > 0,
    ensures
        text::non_empty(list) == list,
    decreases list.len(),
{
    let keep = |p: Seq<char>| p.len() > 0;
    reveal(Seq::filter);
    if list.len() > 0 {
        let front = list.drop_last();
        assert forall|i: int| #![trigger front[i]] 0 <= i < front.len() implies front[i].len()
            > 0 by {
            assert(front[i] == list[i]);
        }
        lemma_non_empty_all(front);
        text_lemmas::lemma_filter_push(front, list[list.len() - 1], keep);
        assert(front.push(list[list.len() - 1]) =~= list);
    }
}

proof fn lemma_non_empty_members(list: text::Texts)
    ensures
        forall|x: Seq<char>| #[trigger] text::non_empty(list).contains(x) ==> x.len() > 0
            && list.contains(x),
    decreases list.len(),
{
    let keep = |p: Seq<char>| p.len() > 0;
    reveal(Seq::filter);
    if list.len() > 0 {
        let front = list.drop_last();
        let last = list[list.len() - 1];
        lemma_non_empty_members(front);
        text_lemmas::lemma_filter_push(front, last, keep);
        assert(front.push(last) =~= list);
        assert forall|x: Seq<char>| #[trigger] text::non_empty(list).contains(x) implies x.len() > 0
            && list.contains(x) by {
            let result = text::non_empty(list);
            let k = choose|k: int| 0 <= k < result.len() && result[k] == x;
            let before = text::non_empty(front);
            if k < before.len() {
                assert(before[k] == x);
                assert(before.contains(x));
                let i = choose|i: int| 0 <= i < front.len() && front[i] == x;
                assert(list[i] == x);
            } else {
                assert(list[list.len() - 1] == x);
            }
        }
    }
}

proof fn lemma_clean_branches(branches: text::Texts)
    ensures
        are_clean_branches(devices::clean_branches(branches)),
{
    let trimmed = text::trimmed(branches);
    let kept = text::non_empty(trimmed);
    let result = devices::clean_branches(branches);
    order::law_by_text_is_order();
    order::law_as_set(kept, order::by_text());
    lemma_non_empty_members(trimmed);
    assert forall|i: int| #![trigger result[i]] 0 <= i < result.len() implies result[i].len() > 0
        && text::trim(result[i]) == result[i] by {
        assert(result.contains(result[i]));
        assert(kept.contains(result[i]));
        let k = choose|k: int| 0 <= k < trimmed.len() && trimmed[k] == result[i];
        text_lemmas::lemma_trim_idempotent(branches[k], text::space());
    }
}

proof fn lemma_clean_branches_stay(branches: text::Texts)
    requires
        are_clean_branches(branches),
    ensures
        devices::clean_branches(branches) == branches,
{
    assert(text::trimmed(branches) =~= branches);
    lemma_non_empty_all(branches);
    order::law_by_text_is_order();
    order::law_ascending_is_set(branches, order::by_text());
}

/// The repository is in its clean form.
pub open spec fn is_clean_repository(r: RepositoryView) -> bool {
    devices::clean_repository(r) == Some(r)
}

proof fn lemma_clean_repository(r: RepositoryView)
    ensures
        devices::clean_repository(r) matches Some(c) ==> is_clean_repository(c),
{
    text_lemmas::lemma_trim_idempotent(r.0, text::space());
    lemma_clean_branches(r.1);
    lemma_clean_branches_stay(devices::clean_branches(r.1));
}

proof fn lemma_clean_repositories_are_clean(list: Seq<RepositoryView>)
    ensures
        forall|r: RepositoryView| #[trigger]
            devices::clean_repositories(list).contains(r) ==> is_clean_repository(r),
    decreases list.len(),
{
    if list.len() > 0 {
        let before = devices::clean_repositories(list.drop_last());
        lemma_clean_repositories_are_clean(list.drop_last());
        lemma_clean_repository(list.last());
        let result = devices::clean_repositories(list);
        assert forall|r: RepositoryView| #[trigger] result.contains(
            r,
        ) implies is_clean_repository(r) by {
            let k = choose|k: int| 0 <= k < result.len() && result[k] == r;
            if k < before.len() {
                assert(before[k] == r);
                assert(before.contains(r));
            }
        }
    }
}

proof fn lemma_clean_repositories_stay(list: Seq<RepositoryView>)
    requires
        forall|i: int| #![trigger list[i]] 0 <= i < list.len() ==> is_clean_repository(list[i]),
    ensures
        devices::clean_repositories(list) == list,
    decreases list.len(),
{
    if list.len() > 0 {
        let front = list.drop_last();
        assert forall|i: int| #![trigger front[i]] 0 <= i < front.len() implies is_clean_repository(
            front[i],
        ) by {
            assert(front[i] == list[i]);
        }
        lemma_clean_repositories_stay(front);
        assert(is_clean_repository(list[list.len() - 1]));
        assert(front.push(list[list.len() - 1]) =~= list);
    }
}

/// Sanitized repositories stand in ascending order, each in its clean form and
/// none twice, and sanitizing them again changes nothing.
pub proof fn law_sanitized_repositories(list: Seq<RepositoryView>)
    ensures
        order::ascending(devices::sanitized_repositories(list), order::by_repository()),
        forall|i: int| #![trigger devices::sanitized_repositories(list)[i]]
            0 <= i < devices::sanitized_repositories(list).len() ==> is_clean_repository(
                devices::sanitized_repositories(list)[i],
            ),
        devices::sanitized_repositories(devices::sanitized_repositories(list))
            == devices::sanitized_repositories(list),
{
    let clean = devices::clean_repositories(list);
    let result = devices::sanitized_repositories(list);
    order::law_by_repository_is_order();
    order::law_as_set(clean, order::by_repository());
    lemma_clean_repositories_are_clean(list);
    assert forall|i: int| #![trigger result[i]] 0 <= i < result.len() implies is_clean_repository(
        result[i],
    ) by {
        assert(result.contains(result[i]));
        assert(clean.contains(result[i]));
    }
    lemma_clean_repositories_stay(result);
    order::law_ascending_is_set(result, order::by_repository());
}

} // verus!
