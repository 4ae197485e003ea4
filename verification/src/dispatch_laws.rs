//! What creating and dispatching a job promises: which device gets it, and what
//! is planned, sent and recorded.

use crate::device_models::{DeviceRecord, DeviceView};
use crate::devices;
use crate::devices::RepositoryOption;
use crate::dispatch;
use crate::dispatch::{
    AfterProbe, AfterPublish, CreateJobRequest, DeviceChoice, JobApprovalCommand,
    JobDispatchMessage, JobEvent, JobIdentity, JobPlan, ProbeOutcome,
};
use crate::error::AppError;
use crate::formatting;
use crate::json::JsonView;
use crate::models::{
    ApprovalRecord, DeviceRepository, ExecutionIntent, JobRecord, JobTargetKind,
};
use crate::order;
use crate::order::RepositoryView;
use crate::text;
use crate::time::Timestamp;
use vstd::prelude::*;

verus! {

// ---------------------------------------------------------------------------
// Repositories of a device
// ---------------------------------------------------------------------------

proof fn lemma_visible_repositories(
    list: Seq<RepositoryView>,
    hidden: text::Texts,
    r: RepositoryView,
)
    ensures
        devices::visible_repositories(list, hidden).contains(r) <==> exists|i: int|
            #![trigger list[i]]
            0 <= i < list.len() && devices::clean_repository(list[i]) == Some(r)
                && !hidden.contains(r.0),
    decreases list.len(),
{
    if list.len() > 0 {
        let front = list.drop_last();
        let before = devices::visible_repositories(front, hidden);
        let result = devices::visible_repositories(list, hidden);
        lemma_visible_repositories(front, hidden, r);
        if result.contains(r) {
            let k = choose|k: int| 0 <= k < result.len() && result[k] == r;
            if k < before.len() {
                assert(before[k] == r);
                assert(before.contains(r));
                let i = choose|i: int|
                    #![trigger front[i]]
                    0 <= i < front.len() && devices::clean_repository(front[i]) == Some(r)
                        && !hidden.contains(r.0);
                assert(list[i] == front[i]);
            } else {
                assert(list[list.len() - 1] == list.last());
            }
        }
        if exists|i: int|
            #![trigger list[i]]
            0 <= i < list.len() && devices::clean_repository(list[i]) == Some(r)
                && !hidden.contains(r.0) {
            let i = choose|i: int|
                #![trigger list[i]]
                0 <= i < list.len() && devices::clean_repository(list[i]) == Some(r)
                    && !hidden.contains(r.0);
            if i < front.len() {
                assert(front[i] == list[i]);
                let k = choose|k: int| 0 <= k < before.len() && before[k] == r;
                assert(result[k] == r);
            } else {
                assert(result[result.len() - 1] == r);
            }
        }
    }
}

proof fn lemma_visible_names(names: text::Texts, hidden: text::Texts, r: RepositoryView)
    ensures
        devices::visible_names(names, hidden).contains(r) <==> r.1 == text::Texts::empty()
            && r.0.len() > 0 && !hidden.contains(r.0) && text::trimmed(names).contains(r.0),
    decreases names.len(),
{
    if names.len() > 0 {
        let front = names.drop_last();
        let before = devices::visible_names(front, hidden);
        let result = devices::visible_names(names, hidden);
        lemma_visible_names(front, hidden, r);
        assert(text::trimmed(names) =~= text::trimmed(front).push(text::trim(names.last())));
        if result.contains(r) {
            let k = choose|k: int| 0 <= k < result.len() && result[k] == r;
            if k < before.len() {
                assert(before[k] == r);
                assert(before.contains(r));
                let i = choose|i: int| 0 <= i < front.len() && text::trimmed(front)[i] == r.0;
                assert(text::trimmed(names)[i] == r.0);
            } else {
                assert(text::trimmed(names)[names.len() - 1] == r.0);
            }
        }
        if r.1 == text::Texts::empty() && r.0.len() > 0 && !hidden.contains(r.0) && text::trimmed(
            names,
        ).contains(r.0) {
            let i = choose|i: int| 0 <= i < names.len() && text::trimmed(names)[i] == r.0;
            if i < front.len() {
                assert(text::trimmed(front)[i] == r.0);
                assert(text::trimmed(front).contains(r.0));
                let k = choose|k: int| 0 <= k < before.len() && before[k] == r;
                assert(result[k] == r);
            } else {
                assert(result[result.len() - 1] == r);
            }
        }
    }
}

/// A device offers the repositories that it lists, trimmed and with tidied
/// branches, and the names that it allows or has found, without branches. It
/// offers none that it hides and none without a name.
#[verifier::rlimit(60)]
pub proof fn law_offered_repositories(device: DeviceView, r: RepositoryView)
    ensures
        devices::selectable(device).contains(r) <==> r.0.len() > 0 && !device.hidden_repos.contains(
            r.0,
        ) && ((exists|i: int|
            #![trigger device.repositories[i]]
            0 <= i < device.repositories.len() && text::trim(device.repositories[i].0) == r.0
                && devices::clean_branches(device.repositories[i].1) == r.1) || (r.1
            == text::Texts::empty() && (text::trimmed(device.allowed_repos).contains(r.0)
            || text::trimmed(device.discovered_repos).contains(r.0)))),
        order::ascending(devices::selectable(device), order::by_repository()),
{
    let hidden = device.hidden_repos;
    let list = device.repositories;
    let a = devices::visible_repositories(list, hidden);
    let b = devices::visible_names(device.allowed_repos, hidden);
    let c = devices::visible_names(device.discovered_repos, hidden);
    let all = a + b + c;
    lemma_visible_repositories(list, hidden, r);
    lemma_visible_names(device.allowed_repos, hidden, r);
    lemma_visible_names(device.discovered_repos, hidden, r);
    order::law_by_repository_is_order();
    order::law_as_set(all, order::by_repository());
    if all.contains(r) {
        let i = choose|i: int| 0 <= i < all.len() && all[i] == r;
        if i < a.len() {
            assert(a[i] == r);
            assert(a.contains(r));
            let j = choose|j: int|
                #![trigger list[j]]
                0 <= j < list.len() && devices::clean_repository(list[j]) == Some(r)
                    && !hidden.contains(r.0);
            assert(text::trim(list[j].0) == r.0);
        } else if i < a.len() + b.len() {
            assert(b[i - a.len()] == r);
        } else {
            assert(c[i - a.len() - b.len()] == r);
        }
    }
    if a.contains(r) {
        let i = choose|i: int| 0 <= i < a.len() && a[i] == r;
        assert(all[i] == r);
    }
    if b.contains(r) {
        let i = choose|i: int| 0 <= i < b.len() && b[i] == r;
        assert(all[a.len() + i] == r);
    }
    if c.contains(r) {
        let i = choose|i: int| 0 <= i < c.len() && c[i] == r;
        assert(all[a.len() + b.len() + i] == r);
    }
    if r.0.len() > 0 && !hidden.contains(r.0) && exists|i: int|
        #![trigger list[i]]
        0 <= i < list.len() && text::trim(list[i].0) == r.0 && devices::clean_branches(list[i].1)
            == r.1 {
        let i = choose|i: int|
            #![trigger list[i]]
            0 <= i < list.len() && text::trim(list[i].0) == r.0 && devices::clean_branches(
                list[i].1,
            ) == r.1;
        assert(devices::clean_repository(list[i]) == Some(r));
    }
}

/// A repository can be chosen for a device exactly where the device lists, allows
/// or has found it and does not hide it.
#[verifier::rlimit(60)]
pub proof fn law_selectable_names(device: DeviceView, name: Seq<char>)
    ensures
        devices::selectable_names(device).contains(name) <==> name.len() > 0
            && !device.hidden_repos.contains(name) && ((exists|i: int|
            #![trigger device.repositories[i]]
            0 <= i < device.repositories.len() && text::trim(device.repositories[i].0) == name)
            || text::trimmed(device.allowed_repos).contains(name) || text::trimmed(
            device.discovered_repos,
        ).contains(name)),
        order::ascending(devices::selectable_names(device), order::by_text()),
{
    let set = devices::selectable(device);
    let names = devices::repository_names(set);
    let list = device.repositories;
    order::law_by_text_is_order();
    order::law_as_set(names, order::by_text());
    if names.contains(name) {
        let k = choose|k: int| 0 <= k < names.len() && names[k] == name;
        law_offered_repositories(device, set[k]);
        assert(set.contains(set[k]));
        assert(set[k].0 == name);
    }
    if name.len() > 0 && !device.hidden_repos.contains(name) {
        if exists|i: int|
            #![trigger list[i]]
            0 <= i < list.len() && text::trim(list[i].0) == name {
            let i = choose|i: int|
                #![trigger list[i]]
                0 <= i < list.len() && text::trim(list[i].0) == name;
            let r = (name, devices::clean_branches(list[i].1));
            law_offered_repositories(device, r);
            assert(set.contains(r));
            let k = choose|k: int| 0 <= k < set.len() && set[k] == r;
            assert(names[k] == name);
        } else if text::trimmed(device.allowed_repos).contains(name) || text::trimmed(
            device.discovered_repos,
        ).contains(name) {
            let r = (name, text::Texts::empty());
            law_offered_repositories(device, r);
            let k = choose|k: int| 0 <= k < set.len() && set[k] == r;
            assert(names[k] == name);
        }
    }
}

proof fn lemma_non_empty(list: text::Texts, x: Seq<char>)
    ensures
        text::non_empty(list).contains(x) <==> x.len() > 0 && list.contains(x),
    decreases list.len(),
{
    let keep = |p: Seq<char>| p.len() > 0;
    reveal(Seq::filter);
    if list.len() > 0 {
        let front = list.drop_last();
        let last = list[list.len() - 1];
        lemma_non_empty(front, x);
        crate::text_lemmas::lemma_filter_push(front, last, keep);
        assert(front.push(last) =~= list);
        let before = text::non_empty(front);
        let result = text::non_empty(list);
        if result.contains(x) {
            let k = choose|k: int| 0 <= k < result.len() && result[k] == x;
            if k < before.len() {
                assert(before[k] == x);
                assert(before.contains(x));
                let i = choose|i: int| 0 <= i < front.len() && front[i] == x;
                assert(list[i] == x);
            } else {
                assert(list[list.len() - 1] == x);
            }
        }
        if x.len() > 0 && list.contains(x) {
            let i = choose|i: int| 0 <= i < list.len() && list[i] == x;
            if i < front.len() {
                assert(front[i] == x);
                assert(front.contains(x));
                let k = choose|k: int| 0 <= k < before.len() && before[k] == x;
                assert(result[k] == x);
            } else {
                assert(result[result.len() - 1] == x);
            }
        }
    }
}

/// Tidied branches are the trimmed ones that are not empty, each once and in
/// order.
pub proof fn law_tidied_branches(branches: text::Texts, b: Seq<char>)
    ensures
        devices::clean_branches(branches).contains(b) <==> b.len() > 0 && text::trimmed(
            branches,
        ).contains(b),
        order::ascending(devices::clean_branches(branches), order::by_text()),
{
    lemma_non_empty(text::trimmed(branches), b);
    order::law_by_text_is_order();
    order::law_as_set(text::non_empty(text::trimmed(branches)), order::by_text());
}

proof fn lemma_clean_repositories(list: Seq<RepositoryView>, r: RepositoryView)
    ensures
        devices::clean_repositories(list).contains(r) <==> exists|i: int|
            #![trigger list[i]]
            0 <= i < list.len() && devices::clean_repository(list[i]) == Some(r),
    decreases list.len(),
{
    if list.len() > 0 {
        let front = list.drop_last();
        let before = devices::clean_repositories(front);
        let result = devices::clean_repositories(list);
        lemma_clean_repositories(front, r);
        if result.contains(r) {
            let k = choose|k: int| 0 <= k < result.len() && result[k] == r;
            if k < before.len() {
                assert(before[k] == r);
                assert(before.contains(r));
                let i = choose|i: int|
                    #![trigger front[i]]
                    0 <= i < front.len() && devices::clean_repository(front[i]) == Some(r);
                assert(list[i] == front[i]);
            } else {
                assert(list[list.len() - 1] == list.last());
            }
        }
        if exists|i: int|
            #![trigger list[i]]
            0 <= i < list.len() && devices::clean_repository(list[i]) == Some(r) {
            let i = choose|i: int|
                #![trigger list[i]]
                0 <= i < list.len() && devices::clean_repository(list[i]) == Some(r);
            if i < front.len() {
                assert(front[i] == list[i]);
                let k = choose|k: int| 0 <= k < before.len() && before[k] == r;
                assert(result[k] == r);
            } else {
                assert(result[result.len() - 1] == r);
            }
        }
    }
}

/// Sanitizing repositories keeps each one that has a name, under its trimmed name
/// and with its tidied branches, and no other.
pub proof fn law_sanitized_repositories_are_kept(list: Seq<RepositoryView>, r: RepositoryView)
    ensures
        devices::sanitized_repositories(list).contains(r) <==> r.0.len() > 0 && exists|i: int|
            #![trigger list[i]]
            0 <= i < list.len() && text::trim(list[i].0) == r.0 && devices::clean_branches(
                list[i].1,
            ) == r.1,
{
    lemma_clean_repositories(list, r);
    order::law_by_repository_is_order();
    order::law_as_set(devices::clean_repositories(list), order::by_repository());
    if exists|i: int|
        #![trigger list[i]]
        0 <= i < list.len() && devices::clean_repository(list[i]) == Some(r) {
        let i = choose|i: int|
            #![trigger list[i]]
            0 <= i < list.len() && devices::clean_repository(list[i]) == Some(r);
        assert(text::trim(list[i].0) == r.0);
    }
    if r.0.len() > 0 && exists|i: int|
        #![trigger list[i]]
        0 <= i < list.len() && text::trim(list[i].0) == r.0 && devices::clean_branches(list[i].1)
            == r.1 {
        let i = choose|i: int|
            #![trigger list[i]]
            0 <= i < list.len() && text::trim(list[i].0) == r.0 && devices::clean_branches(
                list[i].1,
            ) == r.1;
        assert(devices::clean_repository(list[i]) == Some(r));
    }
}

// ---------------------------------------------------------------------------
// Repository options
// ---------------------------------------------------------------------------

proof fn lemma_occurrences(list: text::Texts, x: Seq<char>)
    ensures
        devices::occurrences(list, x) > 0 <==> list.contains(x),
        list.no_duplicates() ==> devices::occurrences(list, x) <= 1,
    decreases list.len(),
{
    if list.len() > 0 {
        let front = list.drop_last();
        lemma_occurrences(front, x);
        if front.contains(x) {
            let i = choose|i: int| 0 <= i < front.len() && front[i] == x;
            assert(list[i] == x);
        }
        if list.contains(x) {
            let i = choose|i: int| 0 <= i < list.len() && list[i] == x;
            if i < front.len() {
                assert(front[i] == x);
            }
        }
        if list.last() == x {
            assert(list[list.len() - 1] == x);
        }
    }
}

proof fn lemma_occurrences_of_both(a: text::Texts, b: text::Texts, x: Seq<char>)
    ensures
        devices::occurrences(a + b, x) == devices::occurrences(a, x) + devices::occurrences(b, x),
    decreases b.len(),
{
    if b.len() == 0 {
        assert(a + b =~= a);
    } else {
        assert((a + b).drop_last() =~= a + b.drop_last());
        lemma_occurrences_of_both(a, b.drop_last(), x);
    }
}

/// A repository is an option exactly where some device offers it, under a count
/// that is not zero.
#[verifier::rlimit(60)]
pub proof fn law_repository_options(
    devices: Seq<DeviceRecord>,
    options: Seq<RepositoryOption>,
    name: Seq<char>,
)
    requires
        devices::option_views(options) == devices::tally(devices::offered_names(devices)),
    ensures
        (exists|k: int| #![trigger options[k]] 0 <= k < options.len() && options[k].name@ == name)
            <==> exists|i: int|
            #![trigger devices[i]]
            0 <= i < devices.len() && devices::selectable_names(devices[i]@).contains(name),
        forall|k: int|
            #![trigger options[k]]
            0 <= k < options.len() ==> options[k].device_count > 0 && options[k].device_count
                == devices::occurrences(devices::offered_names(devices), options[k].name@),
{
    let names = devices::offered_names(devices);
    let set = order::as_set(names, order::by_text());
    let views = devices::option_views(options);
    order::law_by_text_is_order();
    order::law_as_set(names, order::by_text());
    lemma_offered(devices, name);
    assert(views.len() == options.len());
    assert(devices::tally(names).len() == set.len());
    assert forall|k: int| #![trigger options[k]] 0 <= k < options.len() implies
        options[k].device_count > 0 && options[k].device_count == devices::occurrences(
        names,
        options[k].name@,
    ) && options[k].name@ == set[k] by {
        assert(views[k] == (set[k], devices::occurrences(names, set[k])));
        assert(set.contains(set[k]));
        lemma_occurrences(names, set[k]);
    }
    if names.contains(name) {
        assert(set.contains(name));
        let k = choose|k: int| 0 <= k < set.len() && set[k] == name;
        assert(options[k].name@ == name);
    }
    if exists|k: int| #![trigger options[k]] 0 <= k < options.len() && options[k].name@ == name {
        let k = choose|k: int|
            #![trigger options[k]]
            0 <= k < options.len() && options[k].name@ == name;
        assert(set[k] == name);
        assert(set.contains(name));
    }
}

#[verifier::rlimit(60)]
proof fn lemma_offered(devices: Seq<DeviceRecord>, name: Seq<char>)
    ensures
        devices::offered_names(devices).contains(name) <==> exists|i: int|
            #![trigger devices[i]]
            0 <= i < devices.len() && devices::selectable_names(devices[i]@).contains(name),
    decreases devices.len(),
{
    if devices.len() > 0 {
        let front = devices.drop_last();
        let last = devices.last();
        let own = devices::repository_names(devices::selectable(last@));
        let before = devices::offered_names(front);
        let all = devices::offered_names(devices);
        lemma_offered(front, name);
        order::law_by_text_is_order();
        order::law_as_set(own, order::by_text());
        if all.contains(name) {
            let k = choose|k: int| 0 <= k < all.len() && all[k] == name;
            if k < before.len() {
                assert(before[k] == name);
                assert(before.contains(name));
                let i = choose|i: int|
                    #![trigger front[i]]
                    0 <= i < front.len() && devices::selectable_names(front[i]@).contains(name);
                assert(devices[i] == front[i]);
            } else {
                assert(own[k - before.len()] == name);
                assert(devices[devices.len() - 1] == last);
            }
        }
        if exists|i: int|
            #![trigger devices[i]]
            0 <= i < devices.len() && devices::selectable_names(devices[i]@).contains(name) {
            let i = choose|i: int|
                #![trigger devices[i]]
                0 <= i < devices.len() && devices::selectable_names(devices[i]@).contains(name);
            if i < front.len() {
                assert(front[i] == devices[i]);
                let k = choose|k: int| 0 <= k < before.len() && before[k] == name;
                assert(all[k] == name);
            } else {
                assert(own.contains(name));
                let k = choose|k: int| 0 <= k < own.len() && own[k] == name;
                assert(all[before.len() + k] == name);
            }
        }
    }
}

/// One more device that offers each name once adds one to the count of every
/// repository that it offers, and nothing to the others.
pub proof fn law_one_more_device_counts_once(
    devices: Seq<DeviceRecord>,
    device: DeviceRecord,
    name: Seq<char>,
)
    requires
        devices::repository_names(devices::selectable(device@)).no_duplicates(),
    ensures
        devices::occurrences(devices::offered_names(devices.push(device)), name)
            == devices::occurrences(devices::offered_names(devices), name) + if (
        devices::selectable_names(device@).contains(name)) {
            1nat
        } else {
            0
        },
{
    let own = devices::repository_names(devices::selectable(device@));
    assert(devices.push(device).drop_last() =~= devices);
    lemma_occurrences_of_both(devices::offered_names(devices), own, name);
    lemma_occurrences(own, name);
    order::law_by_text_is_order();
    order::law_as_set(own, order::by_text());
}

// ---------------------------------------------------------------------------
// The choice of a device
// ---------------------------------------------------------------------------

/// A device that lists any allowed repository, repository root or found
/// repository takes a repository job exactly where the repository is among its
/// selectable names. One that lists none of these takes every repository job.
pub proof fn law_scope_of_repository_jobs(device: DeviceView, name: Seq<char>)
    ensures
        device.allowed_repos.len() > 0 || device.allowed_repo_roots.len() > 0
            || device.discovered_repos.len() > 0 ==> (dispatch::takes_target(
            device,
            JobTargetKind::Repository,
            name,
        ) <==> devices::selectable_names(device).contains(name)),
        device.allowed_repos.len() == 0 && device.allowed_repo_roots.len() == 0
            && device.discovered_repos.len() == 0 ==> dispatch::takes_target(
            device,
            JobTargetKind::Repository,
            name,
        ),
{
}

/// A capability job goes only to a device that advertises the capability,
/// whatever repositories it has.
pub proof fn law_capability_jobs(device: DeviceView, name: Seq<char>)
    ensures
        dispatch::takes_target(device, JobTargetKind::Capability, name) <==> exists|i: int|
            #![trigger device.capabilities[i]]
            0 <= i < device.capabilities.len() && text::trim(device.capabilities[i]) == name,
{
    let list = text::trimmed(device.capabilities);
    if list.contains(name) {
        let i = choose|i: int| 0 <= i < list.len() && list[i] == name;
        assert(text::trim(device.capabilities[i]) == name);
    }
    if exists|i: int|
        #![trigger device.capabilities[i]]
        0 <= i < device.capabilities.len() && text::trim(device.capabilities[i]) == name {
        let i = choose|i: int|
            #![trigger device.capabilities[i]]
            0 <= i < device.capabilities.len() && text::trim(device.capabilities[i]) == name;
        assert(list[i] == name);
    }
}

/// Work is for trusted devices that nobody has to look at.
pub proof fn law_only_trusted_devices_get_work(
    device: DeviceRecord,
    r: Result<(), AppError>,
)
    requires
        call_ensures(dispatch::ensure_device_trusted_for_dispatch, (&device,), r),
    ensures
        r is Ok <==> device.trust.status is Trusted && !device.trust.requires_attention
            && device.trust.can_dispatch != Some(false),
        r matches Err(e) ==> e.status is Conflict && text::opt(e.code) == Some(
            "dispatch_device_not_trusted"@,
        ),
{
}

/// The device that a request names gets a repository job exactly where it is
/// trusted and has the repository in scope; no other device gets it instead.
/// Trust is looked at first.
pub proof fn law_requested_device_for_repository(
    device: DeviceRecord,
    name: &str,
    r: Result<DeviceRecord, AppError>,
)
    requires
        call_ensures(
            dispatch::select_dispatch_device,
            (DeviceChoice::Requested(device), &JobTargetKind::Repository, name),
            r,
        ),
    ensures
        r is Ok <==> {
            &&& device.trust.status is Trusted
            &&& !device.trust.requires_attention
            &&& device.trust.can_dispatch != Some(false)
            &&& (device@.allowed_repos.len() > 0 || device@.allowed_repo_roots.len() > 0
                || device@.discovered_repos.len() > 0) ==> devices::selectable_names(
                device@,
            ).contains(name@)
        },
        r matches Ok(d) ==> d == device,
        r matches Err(e) ==> (e.status is Conflict <==> !(device.trust.status is Trusted
            && !device.trust.requires_attention && device.trust.can_dispatch != Some(false))) && (
        e.status is Conflict || e.status is BadRequest),
{
}

/// The device that a request names gets a capability job exactly where it is
/// trusted and advertises the capability.
pub proof fn law_requested_device_for_capability(
    device: DeviceRecord,
    name: &str,
    r: Result<DeviceRecord, AppError>,
)
    requires
        call_ensures(
            dispatch::select_dispatch_device,
            (DeviceChoice::Requested(device), &JobTargetKind::Capability, name),
            r,
        ),
    ensures
        r is Ok <==> {
            &&& device.trust.status is Trusted
            &&& !device.trust.requires_attention
            &&& device.trust.can_dispatch != Some(false)
            &&& text::trimmed(device@.capabilities).contains(name@)
        },
        r matches Ok(d) ==> d == device,
{
}

/// Among several devices a repository job goes to the first that is trusted and
/// has the repository in scope, and there is an answer wherever one is.
#[verifier::rlimit(60)]
pub proof fn law_first_fit_for_repository(
    list: Vec<DeviceRecord>,
    name: &str,
    r: Result<DeviceRecord, AppError>,
    k: int,
)
    requires
        call_ensures(
            dispatch::select_dispatch_device,
            (DeviceChoice::Any(list), &JobTargetKind::Repository, name),
            r,
        ),
        0 <= k < list@.len(),
        list@[k].trust.status is Trusted,
        !list@[k].trust.requires_attention,
        list@[k].trust.can_dispatch != Some(false),
        (list@[k]@.allowed_repos.len() > 0 || list@[k]@.allowed_repo_roots.len() > 0
            || list@[k]@.discovered_repos.len() > 0) ==> devices::selectable_names(
            list@[k]@,
        ).contains(name@),
    ensures
        r matches Ok(d) && d.trust.status is Trusted && !d.trust.requires_attention
            && d.trust.can_dispatch != Some(false) && ((d@.allowed_repos.len() > 0
            || d@.allowed_repo_roots.len() > 0 || d@.discovered_repos.len() > 0)
            ==> devices::selectable_names(d@).contains(name@)) && list@.take(k + 1).contains(d),
{
    assert(dispatch::is_eligible(list@[k]@, JobTargetKind::Repository, name@));
    if let Ok(d) = r {
        let i = choose|i: int|
            #[trigger] dispatch::first_eligible(list@, JobTargetKind::Repository, name@, i) && d
                == list@[i];
        assert(i <= k);
        assert(list@.take(k + 1)[i] == d);
    }
}

/// Among several devices a capability job goes to the first that is trusted and
/// advertises the capability, and there is an answer wherever one does.
#[verifier::rlimit(60)]
pub proof fn law_first_fit_for_capability(
    list: Vec<DeviceRecord>,
    name: &str,
    r: Result<DeviceRecord, AppError>,
    k: int,
)
    requires
        call_ensures(
            dispatch::select_dispatch_device,
            (DeviceChoice::Any(list), &JobTargetKind::Capability, name),
            r,
        ),
        0 <= k < list@.len(),
        list@[k].trust.status is Trusted,
        !list@[k].trust.requires_attention,
        list@[k].trust.can_dispatch != Some(false),
        text::trimmed(list@[k]@.capabilities).contains(name@),
    ensures
        r matches Ok(d) && d.trust.status is Trusted && !d.trust.requires_attention
            && d.trust.can_dispatch != Some(false) && text::trimmed(d@.capabilities).contains(name@)
            && list@.take(k + 1).contains(d),
{
    assert(dispatch::is_eligible(list@[k]@, JobTargetKind::Capability, name@));
    if let Ok(d) = r {
        let i = choose|i: int|
            #[trigger] dispatch::first_eligible(list@, JobTargetKind::Capability, name@, i) && d
                == list@[i];
        assert(i <= k);
        assert(list@.take(k + 1)[i] == d);
    }
}

/// A device that is not trusted, or lacks what the job is for, is never chosen,
/// and where no device remains there is a conflict.
pub proof fn law_chosen_device_is_fit(
    list: Vec<DeviceRecord>,
    kind: JobTargetKind,
    name: &str,
    r: Result<DeviceRecord, AppError>,
)
    requires
        call_ensures(
            dispatch::select_dispatch_device,
            (DeviceChoice::Any(list), &kind, name),
            r,
        ),
    ensures
        r matches Err(e) ==> e.status is Conflict,
        list@.len() == 0 ==> r is Err,
        r matches Ok(d) ==> {
            &&& list@.contains(d)
            &&& d.trust.status is Trusted
            &&& !d.trust.requires_attention
            &&& d.trust.can_dispatch != Some(false)
            &&& kind is Capability ==> text::trimmed(d@.capabilities).contains(name@)
            &&& kind is Repository && (d@.allowed_repos.len() > 0 || d@.allowed_repo_roots.len() > 0
                || d@.discovered_repos.len() > 0) ==> devices::selectable_names(d@).contains(name@)
        },
{
}

/// A blank device id asks for no device in particular.
pub proof fn law_requested_device_id(id: Option<String>, r: Option<String>)
    requires
        call_ensures(dispatch::requested_device_id, (&id,), r),
    ensures
        r is Some <==> (id matches Some(x) && !text::is_blank(x@)),
        r matches Some(x) ==> x@ == text::trim(id.unwrap()@),
{
}

// ---------------------------------------------------------------------------
// Plans
// ---------------------------------------------------------------------------

/// A job needs a title, a prompt and a target, and nothing else. It keeps them
/// without the spaces around them. A repository job has a base branch, `main`
/// where none is named; a capability job has none. An intent that is asked for
/// stands.
pub proof fn law_plan(request: CreateJobRequest, r: Result<JobPlan, AppError>)
    requires
        call_ensures(dispatch::plan_job, (&request,), r),
    ensures
        r is Ok <==> !text::is_blank(request.title@) && !text::is_blank(request.prompt@) && (
        request.target_name matches Some(name) && !text::is_blank(name@)),
        r matches Err(e) ==> e.status is BadRequest,
        r matches Ok(plan) ==> {
            &&& plan.title@ == text::trim(request.title@)
            &&& plan.prompt@ == text::trim(request.prompt@)
            &&& plan.target_kind == request.target_kind
            &&& plan.target_name@ == text::trim(request.target_name.unwrap()@)
            &&& plan.base_branch is Some <==> request.target_kind is Repository
            &&& request.target_kind is Repository ==> (match request.base_branch {
                Some(branch) => if text::is_blank(branch@) {
                    plan.base_branch.unwrap()@ == "main"@
                } else {
                    plan.base_branch.unwrap()@ == text::trim(branch@)
                },
                None => plan.base_branch.unwrap()@ == "main"@,
            })
            &&& request.execution_intent matches Some(intent) ==> plan.execution_intent == intent
            &&& request.execution_intent is None ==> (plan.execution_intent is ReadOnly
                <==> crate::drafts::asks_for_reading(text::trim(request.prompt@)))
            &&& plan@.repo_name() is Some <==> request.target_kind is Repository
            &&& plan@.capability_name() is Some <==> request.target_kind is Capability
            &&& plan@.repo_name() matches Some(name) ==> name == plan.target_name@
            &&& plan@.capability_name() matches Some(name) ==> name == plan.target_name@
        },
{
}

/// The intent of a request is the one that it names; only a request that names
/// none is judged by its prompt.
pub proof fn law_requested_intent(request: CreateJobRequest, r: ExecutionIntent)
    requires
        call_ensures(dispatch::requested_intent, (&request,), r),
    ensures
        request.execution_intent matches Some(intent) ==> r == intent,
        request.execution_intent is None ==> (r is ReadOnly <==> crate::drafts::asks_for_reading(
            request.prompt@,
        )),
{
}

/// A job keeps its ids. Its short id is the first eight characters of the id in
/// lower case. A repository job works on a branch of its own, which names the
/// short id and ends in at most 32 characters made of the title.
#[verifier::rlimit(60)]
pub proof fn law_job_identity(
    plan: JobPlan,
    job_id: String,
    correlation_id: String,
    r: JobIdentity,
)
    requires
        call_ensures(dispatch::identity_for, (&plan, job_id, correlation_id), r),
    ensures
        r.job_id@ == job_id@,
        r.correlation_id@ == correlation_id@,
        r.short_id@.len() == if job_id@.len() < 8 {
            job_id@.len()
        } else {
            8
        },
        forall|i: int|
            0 <= i < r.short_id@.len() ==> #[trigger] r.short_id@[i] == text::ascii_lower(
                job_id@[i],
            ),
        r.branch_name is Some <==> plan.target_kind is Repository,
        r.branch_name matches Some(branch) ==> text::starts_with(
            branch@,
            "codex/"@ + r.short_id@ + "-"@,
        ) && 0 < branch@.len() - ("codex/"@ + r.short_id@ + "-"@).len() <= 32 && branch@.skip(
            ("codex/"@ + r.short_id@ + "-"@).len() as int,
        ) == formatting::slug(plan.title@),
{
    formatting::law_slug(plan.title@);
    if let Some(branch) = r.branch_name {
        let lead = "codex/"@ + r.short_id@ + "-"@;
        assert(branch@ == lead + formatting::slug(plan.title@));
        assert(branch@.take(lead.len() as int) =~= lead);
        assert(branch@.skip(lead.len() as int) =~= formatting::slug(plan.title@));
    }
}

/// Jobs whose short ids differ in an equal length have different branches.
pub proof fn law_branches_are_told_apart(
    plan: dispatch::PlanView,
    other: dispatch::PlanView,
    a: Seq<char>,
    b: Seq<char>,
)
    requires
        plan.target_kind is Repository,
        other.target_kind is Repository,
        a.len() == b.len(),
        a != b,
    ensures
        dispatch::branch_of(plan, a) != dispatch::branch_of(other, b),
{
    let x = dispatch::branch_of(plan, a).unwrap();
    let y = dispatch::branch_of(other, b).unwrap();
    let n = "codex/"@.len() as int;
    assert(x.subrange(n, n + a.len()) =~= a);
    assert(y.subrange(n, n + b.len()) =~= b);
}

// ---------------------------------------------------------------------------
// Probing, publishing and approving
// ---------------------------------------------------------------------------

/// After a probe a job waits exactly where its device is not available: where no
/// answer came, or the answer says so. What the device said is on record.
#[verifier::rlimit(60)]
pub proof fn law_probe_decides(
    correlation_id: &str,
    outcome: ProbeOutcome,
    instant: &str,
    r: AfterProbe,
)
    requires
        call_ensures(dispatch::after_probe_at, (correlation_id, &outcome, instant), r),
    ensures
        r.event.event_type@ == "job.probe_result"@,
        outcome matches ProbeOutcome::Failed(reason) ==> r.change is Some
            && r.event.payload.model().field("available"@) == Some(JsonView::Bool(false))
            && r.event.payload.model().field_text("reason"@) == Some(reason@)
            && r.event.payload.model().field("probe_error"@) == Some(JsonView::Bool(true)),
        outcome matches ProbeOutcome::Answered(s) ==> (r.change is None <==> s.available)
            && r.event.payload.model().field("available"@) == Some(JsonView::Bool(s.available))
            && r.event.payload.model().field_text("reason"@) == Some(s.reason@)
            && r.event.payload.model().field_text("probe_id"@) == Some(s.probe_id@)
            && r.event.payload.model().field_text("responded_at"@) == Some(instant@)
            && r.event.payload.model().field("probe_error"@) is None,
        r.event.payload.model().field_text("correlation_id"@) == Some(correlation_id@),
        r.change matches Some(change) ==> change.status@ == "pending"@ && change.result is None
            && change.failure_class is None,
{
    reveal_with_fuel(crate::json::lookup, 7);
    reveal_strlit("correlation_id");
    reveal_strlit("available");
    reveal_strlit("reason");
    reveal_strlit("probe_error");
    reveal_strlit("probe_id");
    reveal_strlit("responded_at");
    assert("correlation_id"@.len() == 14);
    assert("available"@.len() == 9);
    assert("reason"@.len() == 6);
    assert("probe_error"@.len() == 11);
    assert("probe_id"@.len() == 8);
    assert("responded_at"@.len() == 12);
}

/// What a device is sent is the plan under the ids of the job.
pub proof fn law_dispatch_message(
    plan: JobPlan,
    identity: JobIdentity,
    thread_id: &str,
    device_id: &str,
    now: Timestamp,
    r: JobDispatchMessage,
)
    requires
        call_ensures(dispatch::dispatch_message, (&plan, &identity, thread_id, device_id, now), r),
    ensures
        r.job_id@ == identity.job_id@,
        r.short_id@ == identity.short_id@,
        r.correlation_id@ == identity.correlation_id@,
        r.thread_id@ == thread_id@,
        r.device_id@ == device_id@,
        r.title@ == plan.title@,
        r.prompt@ == plan.prompt@,
        r.target_kind == plan.target_kind,
        r.target_name@ == plan.target_name@,
        text::opt(r.base_branch) == text::opt(plan.base_branch),
        text::opt(r.branch_name) == text::opt(identity.branch_name),
        r.execution_intent == plan.execution_intent,
        r.dispatched_at == now,
{
}

/// A job counts as dispatched exactly where its message went out. One that could
/// not be sent failed for a reason outside of it, and the caller is told.
#[verifier::rlimit(60)]
pub proof fn law_publish_decides(
    plan: JobPlan,
    identity: JobIdentity,
    device_id: &str,
    publish_error: Option<&str>,
    r: AfterPublish,
)
    requires
        call_ensures(dispatch::after_publish, (&plan, &identity, device_id, publish_error), r),
    ensures
        r.failure is Some <==> publish_error is Some,
        publish_error is None ==> r.change.status@ == "dispatched"@ && r.change.result is None
            && r.change.failure_class is None && r.event.event_type@ == "job.dispatched"@
            && r.event.payload.model().field_text("device_id"@) == Some(device_id@)
            && r.event.payload.model().field_text("target_name"@) == Some(plan.target_name@),
        publish_error matches Some(reason) ==> r.change.status@ == "failed"@ && text::opt(
            r.change.result,
        ) == Some("failure"@) && text::opt(r.change.failure_class) == Some("infrastructure"@)
            && r.event.event_type@ == "job.dispatch_failed"@
            && r.event.payload.model().field_text("error"@) == Some(reason@),
        r.failure matches Some(e) ==> e.status is Internal,
        r.event.payload.model().field_text("correlation_id"@) == Some(identity.correlation_id@),
        r.event.payload.model().field_text("subject"@) == Some(
            "elowen.jobs.dispatch."@ + device_id@,
        ),
{
    reveal_with_fuel(crate::json::lookup, 7);
    reveal_strlit("correlation_id");
    reveal_strlit("subject");
    reveal_strlit("device_id");
    reveal_strlit("target_kind");
    reveal_strlit("target_name");
    reveal_strlit("error");
    assert("correlation_id"@.len() == 14);
    assert("subject"@.len() == 7);
    assert("device_id"@.len() == 9);
    assert("target_kind"@.len() == 11);
    assert("target_name"@.len() == 11);
    assert("target_kind"@[7] != "target_name"@[7]);
    assert("error"@.len() == 5);
}

/// A push can be approved exactly for a repository job that has a device and a
/// branch. The command goes to that device and names that branch.
pub proof fn law_push_command(
    approval: ApprovalRecord,
    job: JobRecord,
    now: Timestamp,
    r: Result<JobApprovalCommand, AppError>,
)
    requires
        call_ensures(dispatch::push_approval_command, (&approval, &job, now), r),
    ensures
        r is Ok <==> job.device_id is Some && job.branch_name is Some && job.target_kind@
            != "capability"@,
        r matches Err(e) ==> e.status is Conflict,
        r matches Ok(c) ==> {
            &&& c.approval_id@ == approval.id@
            &&& c.action_type@ == approval.action_type@
            &&& c.job_id@ == job.id@
            &&& c.short_id@ == job.short_id@
            &&& c.correlation_id@ == job.correlation_id@
            &&& c.device_id@ == job.device_id.unwrap()@
            &&& c.target_kind is Repository
            &&& c.target_name@ == job.repo_name@
            &&& c.branch_name is Some && c.branch_name.unwrap()@ == job.branch_name.unwrap()@
            &&& c.approved_at == now
        },
{
}

// ---------------------------------------------------------------------------
// Offers and records
// ---------------------------------------------------------------------------

/// The names that a device offers are those of its offered repositories, in
/// order and each once.
pub proof fn law_offered_names(
    device: DeviceRecord,
    names: Vec<String>,
    repositories: Vec<DeviceRepository>,
    name: Seq<char>,
)
    requires
        call_ensures(devices::selectable_repo_names, (&device,), names),
        call_ensures(devices::selectable_repositories, (&device,), repositories),
    ensures
        text::views(names@).contains(name) <==> exists|i: int|
            0 <= i < repositories@.len() && (#[trigger] repositories@[i]).name@ == name,
        device@.hidden_repos.contains(name) ==> !text::views(names@).contains(name),
        order::ascending(text::views(names@), order::by_text()),
{
    let set = devices::selectable(device@);
    let list = devices::repository_names(set);
    let views = order::repository_views(repositories@);
    law_selectable_names(device@, name);
    order::law_by_text_is_order();
    order::law_as_set(list, order::by_text());
    assert(views.len() == repositories@.len());
    if list.contains(name) {
        let i = choose|i: int| 0 <= i < list.len() && list[i] == name;
        assert(views[i] == repositories@[i]@);
        assert(repositories@[i].name@ == name);
    }
    if exists|i: int| 0 <= i < repositories@.len() && (#[trigger] repositories@[i]).name@ == name {
        let i = choose|i: int|
            0 <= i < repositories@.len() && (#[trigger] repositories@[i]).name@ == name;
        assert(views[i] == repositories@[i]@);
        assert(list[i] == name);
    }
}

/// The options among several devices name exactly what some device offers.
pub proof fn law_options_of_devices(
    list: &[DeviceRecord],
    options: Vec<RepositoryOption>,
    name: Seq<char>,
)
    requires
        call_ensures(devices::repository_options, (list,), options),
    ensures
        (exists|k: int| #![trigger options@[k]] 0 <= k < options@.len() && options@[k].name@ == name)
            <==> exists|i: int|
            #![trigger list@[i]]
            0 <= i < list@.len() && devices::selectable_names(list@[i]@).contains(name),
        forall|k: int|
            #![trigger options@[k]]
            0 <= k < options@.len() ==> options@[k].device_count > 0,
{
    law_repository_options(list@, options@, name);
}

/// A device takes a repository that it has in scope or, where it has no scope, any
/// repository; it takes a capability that it advertises.
pub proof fn law_target_is_allowed(
    device: DeviceRecord,
    kind: JobTargetKind,
    name: &str,
    r: Result<(), AppError>,
)
    requires
        call_ensures(dispatch::ensure_target_allowed, (&device, &kind, name), r),
    ensures
        kind is Repository ==> (r is Ok <==> (device@.allowed_repos.len() == 0
            && device@.allowed_repo_roots.len() == 0 && device@.discovered_repos.len() == 0)
            || devices::selectable_names(device@).contains(name@)),
        kind is Capability ==> (r is Ok <==> text::trimmed(device@.capabilities).contains(name@)),
        r matches Err(e) ==> e.status is BadRequest,
{
}

/// A new job has ids of its own; the short one and the branch follow from them.
pub proof fn law_new_identity(plan: JobPlan, r: JobIdentity)
    requires
        call_ensures(dispatch::new_job_identity, (&plan,), r),
    ensures
        r.short_id@.len() == 8,
        forall|i: int|
            0 <= i < 8 ==> #[trigger] r.short_id@[i] == text::ascii_lower(r.job_id@[i]),
        r.branch_name is Some <==> plan.target_kind is Repository,
        r.branch_name matches Some(branch) ==> text::starts_with(
            branch@,
            "codex/"@ + r.short_id@ + "-"@,
        ),
        crate::ids::is_id(r.job_id@) && crate::ids::is_id(r.correlation_id@),
{
    if let Some(branch) = r.branch_name {
        let lead = "codex/"@ + r.short_id@ + "-"@;
        assert(branch@.take(lead.len() as int) =~= lead);
    }
}

proof fn lemma_job_keys()
    ensures
        "correlation_id"@.len() == 14,
        "target_kind"@.len() == 11,
        "target_name"@.len() == 11,
        "prompt"@.len() == 6,
        "repo_name"@.len() == 9,
        "capability_name"@.len() == 15,
        "device_id"@.len() == 9,
        "base_branch"@.len() == 11,
        "branch_name"@.len() == 11,
        "execution_intent"@.len() == 16,
        "target_kind"@[7] != "target_name"@[7],
        "repo_name"@[0] != "device_id"@[0],
        "base_branch"@[1] != "branch_name"@[1],
        "target_kind"@[0] == 't',
        "target_name"@[0] == 't',
        "base_branch"@[0] == 'b',
        "branch_name"@[0] == 'b',
{
    reveal_strlit("correlation_id");
    reveal_strlit("target_kind");
    reveal_strlit("target_name");
    reveal_strlit("prompt");
    reveal_strlit("repo_name");
    reveal_strlit("capability_name");
    reveal_strlit("device_id");
    reveal_strlit("base_branch");
    reveal_strlit("branch_name");
    reveal_strlit("execution_intent");
}

/// The record of a new job says what it is for, where it goes, on which branches
/// it works and what it may do.
#[verifier::rlimit(60)]
pub proof fn law_created_event(
    plan: JobPlan,
    identity: JobIdentity,
    device_id: &str,
    r: JobEvent,
)
    requires
        call_ensures(dispatch::created_event, (&plan, &identity, device_id), r),
    ensures
        r.event_type@ == "job.created"@,
        r.payload.model().field_text("correlation_id"@) == Some(identity.correlation_id@),
        r.payload.model().field_text("target_kind"@) == Some(plan.target_kind.name()),
        r.payload.model().field_text("target_name"@) == Some(plan.target_name@),
        r.payload.model().field_text("prompt"@) == Some(plan.prompt@),
        plan.target_kind is Repository ==> r.payload.model().field_text("repo_name"@) == Some(
            plan.target_name@,
        ) && r.payload.model().field_text("capability_name"@) is None,
        plan.target_kind is Capability ==> r.payload.model().field_text("capability_name"@) == Some(
            plan.target_name@,
        ) && r.payload.model().field_text("repo_name"@) is None,
        r.payload.model().field_text("device_id"@) == Some(device_id@),
        r.payload.model().field_text("base_branch"@) == text::opt(plan.base_branch),
        r.payload.model().field_text("branch_name"@) == text::opt(identity.branch_name),
        r.payload.model().field_text("execution_intent"@) == Some(plan.execution_intent.name()),
{
    lemma_job_keys();
    reveal_with_fuel(crate::json::lookup, 12);
}

/// What is recorded of a probe does not depend on how the instant of its answer is
/// written; a job waits exactly where its device is not available.
#[verifier::rlimit(60)]
pub proof fn law_probe_is_recorded(correlation_id: &str, outcome: ProbeOutcome, r: AfterProbe)
    requires
        call_ensures(dispatch::after_probe, (correlation_id, &outcome), r),
    ensures
        r.event.event_type@ == "job.probe_result"@,
        r.event.payload.model().field_text("correlation_id"@) == Some(correlation_id@),
        outcome matches ProbeOutcome::Failed(reason) ==> r.change is Some
            && r.event.payload.model().field("available"@) == Some(JsonView::Bool(false))
            && r.event.payload.model().field_text("reason"@) == Some(reason@),
        outcome matches ProbeOutcome::Answered(s) ==> (r.change is None <==> s.available)
            && r.event.payload.model().field("available"@) == Some(JsonView::Bool(s.available))
            && r.event.payload.model().field_text("reason"@) == Some(s.reason@)
            && r.event.payload.model().field_text("probe_id"@) == Some(s.probe_id@)
            && r.event.payload.model().field_text("responded_at"@) == Some(
            crate::time::json_text(s.responded_at.secs(), s.responded_at.nanos()),
        ),
        r.change matches Some(change) ==> change.status@ == "pending"@ && change.result is None
            && change.failure_class is None,
{
    reveal_with_fuel(crate::json::lookup, 7);
    reveal_strlit("correlation_id");
    reveal_strlit("available");
    reveal_strlit("reason");
    reveal_strlit("probe_error");
    reveal_strlit("probe_id");
    reveal_strlit("responded_at");
    assert("correlation_id"@.len() == 14);
    assert("available"@.len() == 9);
    assert("reason"@.len() == 6);
    assert("probe_error"@.len() == 11);
    assert("probe_id"@.len() == 8);
    assert("responded_at"@.len() == 12);
}

/// The record of a dispatch repeats the plan and names the branches and the
/// intent.
#[verifier::rlimit(60)]
pub proof fn law_dispatched_event(
    plan: JobPlan,
    identity: JobIdentity,
    device_id: &str,
    r: AfterPublish,
)
    requires
        call_ensures(dispatch::after_publish, (&plan, &identity, device_id, None), r),
    ensures
        r.event.payload.model().field_text("target_kind"@) == Some(plan.target_kind.name()),
        r.event.payload.model().field_text("repo_name"@) == plan@.repo_name(),
        r.event.payload.model().field_text("capability_name"@) == plan@.capability_name(),
        r.event.payload.model().field_text("base_branch"@) == text::opt(plan.base_branch),
        r.event.payload.model().field_text("branch_name"@) == text::opt(identity.branch_name),
        r.event.payload.model().field_text("execution_intent"@) == Some(
            plan.execution_intent.name(),
        ),
{
    lemma_job_keys();
    reveal_strlit("subject");
    assert("subject"@.len() == 7);
    reveal_with_fuel(crate::json::lookup, 12);
}

} // verus!
