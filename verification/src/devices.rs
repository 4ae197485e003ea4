//! The repositories that devices offer.

use crate::device_models::{DeviceRecord, DeviceView};
use crate::formatting::holds_text;
use crate::models::DeviceRepository;
use crate::order;
use crate::order::{insert_repository, insert_text, RepositoryView};
use crate::scan;
use crate::scan::{chars_of, push_line, trim_text};
use crate::text;
use vstd::prelude::*;

verus! {

// ---------------------------------------------------------------------------
// Repositories
// ---------------------------------------------------------------------------

/// The trimmed branches that are not empty, as an ascending set.
pub open spec fn clean_branches(branches: text::Texts) -> text::Texts {
    order::as_set(text::non_empty(text::trimmed(branches)), order::by_text())
}

/// The repository with its name trimmed and its branches clean; `None` where
/// it has no name.
pub open spec fn clean_repository(r: RepositoryView) -> Option<RepositoryView> {
    if text::is_blank(r.0) {
        None
    } else {
        Some((text::trim(r.0), clean_branches(r.1)))
    }
}

/// `list` with one more element, where there is one.
pub open spec fn with_item<T>(list: Seq<T>, item: Option<T>) -> Seq<T> {
    match item {
        Some(x) => list.push(x),
        None => list,
    }
}

/// The clean forms of the repositories that have a name.
pub open spec fn clean_repositories(list: Seq<RepositoryView>) -> Seq<RepositoryView>
    decreases list.len(),
{
    if list.len() == 0 {
        list
    } else {
        with_item(clean_repositories(list.drop_last()), clean_repository(list.last()))
    }
}

/// The clean repositories as an ascending set.
pub open spec fn sanitized_repositories(list: Seq<RepositoryView>) -> Seq<RepositoryView> {
    order::as_set(clean_repositories(list), order::by_repository())
}

fn clean_branch_list(branches: &[String]) -> (r: Vec<String>)
    ensures
        text::views(r@) == clean_branches(text::views(branches@)),
{
    let ghost model = text::trimmed(text::views(branches@));
    let ghost keep = |p: Seq<char>| p.len() > 0;
    let mut out: Vec<String> = Vec::new();
    let mut i: usize = 0;
    proof {
        reveal(Seq::filter);
        assert(model.take(0) =~= Seq::empty());
        assert(text::views(out@) =~= order::as_set(
            model.take(0).filter(keep),
            order::by_text(),
        ));
    }
    while i < branches.len()
        invariant
            i <= branches@.len(),
            model == text::trimmed(text::views(branches@)),
            keep == (|p: Seq<char>| p.len() > 0),
            text::views(out@) == order::as_set(model.take(i as int).filter(keep), order::by_text()),
        decreases branches@.len() - i,
    {
        let branch = trim_text(branches[i].as_str());
        proof {
            crate::text_lemmas::lemma_filter_push(model.take(i as int), model[i as int], keep);
            assert(model.take(i + 1) =~= model.take(i as int).push(model[i as int]));
            assert(model[i as int] == branch@);
            let before = model.take(i as int).filter(keep);
            assert(before.push(branch@).drop_last() =~= before);
        }
        if chars_of(branch.as_str()).len() > 0 {
            insert_text(&mut out, branch);
        }
        i += 1;
    }
    assert(model.take(i as int) =~= model);
    out
}

fn clean_device_repository(repository: &DeviceRepository) -> (r: Option<DeviceRepository>)
    ensures
        match r {
            Some(c) => clean_repository(repository@) == Some(c@),
            None => clean_repository(repository@) is None,
        },
{
    let name = trim_text(repository.name.as_str());
    if chars_of(name.as_str()).len() == 0 {
        return None;
    }
    Some(DeviceRepository { name, branches: clean_branch_list(repository.branches.as_slice()) })
}

/// The clean repositories as an ascending set.
pub fn sanitize_device_repositories(repositories: Vec<DeviceRepository>) -> (r: Vec<
    DeviceRepository,
>)
    ensures
        order::repository_views(r@) == sanitized_repositories(
            order::repository_views(repositories@),
        ),
{
    let ghost model = order::repository_views(repositories@);
    let mut out: Vec<DeviceRepository> = Vec::new();
    let mut i: usize = 0;
    assert(order::repository_views(out@) =~= sanitized_repositories(model.take(0)));
    while i < repositories.len()
        invariant
            i <= repositories@.len(),
            model == order::repository_views(repositories@),
            order::repository_views(out@) == sanitized_repositories(model.take(i as int)),
        decreases repositories@.len() - i,
    {
        assert(model.take(i + 1).drop_last() =~= model.take(i as int));
        if let Some(clean) = clean_device_repository(&repositories[i]) {
            proof {
                let before = clean_repositories(model.take(i as int));
                assert(before.push(clean@).drop_last() =~= before);
            }
            insert_repository(&mut out, clean);
        }
        i += 1;
    }
    assert(model.take(i as int) =~= model);
    out
}

/// The clean repositories whose names are not hidden.
pub open spec fn visible_repositories(
    list: Seq<RepositoryView>,
    hidden: text::Texts,
) -> Seq<RepositoryView>
    decreases list.len(),
{
    if list.len() == 0 {
        list
    } else {
        let before = visible_repositories(list.drop_last(), hidden);
        match clean_repository(list.last()) {
            Some(r) => if hidden.contains(r.0) {
                before
            } else {
                before.push(r)
            },
            None => before,
        }
    }
}

/// The names that are not hidden, as repositories without branches.
pub open spec fn visible_names(names: text::Texts, hidden: text::Texts) -> Seq<RepositoryView>
    decreases names.len(),
{
    if names.len() == 0 {
        Seq::empty()
    } else {
        let before = visible_names(names.drop_last(), hidden);
        let name = text::trim(names.last());
        if name.len() == 0 || hidden.contains(name) {
            before
        } else {
            before.push((name, Seq::empty()))
        }
    }
}

/// The repositories that jobs may choose on a device: those it lists, allows or
/// has discovered, without the hidden ones.
pub open spec fn selectable(device: DeviceView) -> Seq<RepositoryView> {
    order::as_set(
        visible_repositories(device.repositories, device.hidden_repos) + visible_names(
            device.allowed_repos,
            device.hidden_repos,
        ) + visible_names(device.discovered_repos, device.hidden_repos),
        order::by_repository(),
    )
}

/// The names of some repositories.
pub open spec fn repository_names(list: Seq<RepositoryView>) -> text::Texts {
    list.map_values(|r: RepositoryView| r.0)
}

/// The names of the repositories that jobs may choose on a device.
pub open spec fn selectable_names(device: DeviceView) -> text::Texts {
    order::as_set(repository_names(selectable(device)), order::by_text())
}

fn add_visible_names(
    out: &mut Vec<DeviceRepository>,
    names: &[String],
    hidden: &[String],
    Ghost(start): Ghost<Seq<RepositoryView>>,
)
    requires
        order::repository_views(old(out)@) == order::as_set(start, order::by_repository()),
    ensures
        order::repository_views(final(out)@) == order::as_set(
            start + visible_names(text::views(names@), text::views(hidden@)),
            order::by_repository(),
        ),
{
    let ghost model = text::views(names@);
    let ghost hide = text::views(hidden@);
    let mut i: usize = 0;
    assert(start + visible_names(model.take(0), hide) =~= start);
    while i < names.len()
        invariant
            i <= names@.len(),
            model == text::views(names@),
            hide == text::views(hidden@),
            order::repository_views(out@) == order::as_set(
                start + visible_names(model.take(i as int), hide),
                order::by_repository(),
            ),
        decreases names@.len() - i,
    {
        assert(model.take(i + 1).drop_last() =~= model.take(i as int));
        let name = trim_text(names[i].as_str());
        if chars_of(name.as_str()).len() > 0 && !holds_text(hidden, name.as_str()) {
            let item = DeviceRepository { name, branches: Vec::new() };
            proof {
                assert(item@.1 =~= Seq::empty());
                let before = start + visible_names(model.take(i as int), hide);
                let after = start + visible_names(model.take(i + 1), hide);
                assert(after =~= before.push(item@));
                assert(after.drop_last() =~= before);
            }
            insert_repository(out, item);
        }
        i += 1;
    }
    assert(model.take(i as int) =~= model);
}

/// The repositories that jobs may choose on a device.
pub fn selectable_repositories(device: &DeviceRecord) -> (r: Vec<DeviceRepository>)
    ensures
        order::repository_views(r@) == selectable(device@),
{
    let ghost hide = text::views(device.hidden_repos@);
    let ghost model = order::repository_views(device.repositories@);
    let mut out: Vec<DeviceRepository> = Vec::new();
    let mut i: usize = 0;
    assert(order::repository_views(out@) =~= order::as_set(
        visible_repositories(model.take(0), hide),
        order::by_repository(),
    ));
    while i < device.repositories.len()
        invariant
            i <= device.repositories@.len(),
            model == order::repository_views(device.repositories@),
            hide == text::views(device.hidden_repos@),
            order::repository_views(out@) == order::as_set(
                visible_repositories(model.take(i as int), hide),
                order::by_repository(),
            ),
        decreases device.repositories@.len() - i,
    {
        assert(model.take(i + 1).drop_last() =~= model.take(i as int));
        if let Some(clean) = clean_device_repository(&device.repositories[i]) {
            if !holds_text(device.hidden_repos.as_slice(), clean.name.as_str()) {
                proof {
                    let before = visible_repositories(model.take(i as int), hide);
                    assert(before.push(clean@).drop_last() =~= before);
                }
                insert_repository(&mut out, clean);
            }
        }
        i += 1;
    }
    assert(model.take(i as int) =~= model);
    let ghost listed = visible_repositories(model, hide);
    add_visible_names(
        &mut out,
        device.allowed_repos.as_slice(),
        device.hidden_repos.as_slice(),
        Ghost(listed),
    );
    add_visible_names(
        &mut out,
        device.discovered_repos.as_slice(),
        device.hidden_repos.as_slice(),
        Ghost(listed + visible_names(text::views(device.allowed_repos@), hide)),
    );
    out
}

fn names_of(list: &[DeviceRepository]) -> (r: Vec<String>)
    ensures
        text::views(r@) == repository_names(order::repository_views(list@)),
{
    let ghost model = repository_names(order::repository_views(list@));
    let mut out: Vec<String> = Vec::new();
    let mut i: usize = 0;
    assert(text::views(out@) =~= model.take(0));
    while i < list.len()
        invariant
            i <= list@.len(),
            model == repository_names(order::repository_views(list@)),
            text::views(out@) == model.take(i as int),
        decreases list@.len() - i,
    {
        push_line(&mut out, list[i].name.clone());
        assert(model.take(i + 1) =~= model.take(i as int).push(model[i as int]));
        i += 1;
    }
    assert(model.take(i as int) =~= model);
    out
}

/// The names of the repositories that jobs may choose on a device.
pub fn selectable_repo_names(device: &DeviceRecord) -> (r: Vec<String>)
    ensures
        text::views(r@) == selectable_names(device@),
{
    let repositories = selectable_repositories(device);
    order::text_set(names_of(repositories.as_slice()).as_slice())
}

/// A repository with how often devices offer it.
#[derive(Debug)]
pub struct RepositoryOption {
    pub name: String,
    pub device_count: usize,
}

/// The names of the repositories that all devices offer, device by device.
pub open spec fn offered_names(devices: Seq<DeviceRecord>) -> text::Texts
    decreases devices.len(),
{
    if devices.len() == 0 {
        Seq::empty()
    } else {
        offered_names(devices.drop_last()) + repository_names(selectable(devices.last()@))
    }
}

/// How often a text occurs.
pub open spec fn occurrences(list: text::Texts, x: Seq<char>) -> nat
    decreases list.len(),
{
    if list.len() == 0 {
        0
    } else {
        occurrences(list.drop_last(), x) + if list.last() == x {
            1nat
        } else {
            0
        }
    }
}

/// The models of the options.
pub open spec fn option_views(list: Seq<RepositoryOption>) -> Seq<(Seq<char>, nat)> {
    list.map_values(|o: RepositoryOption| (o.name@, o.device_count as nat))
}

/// Each name with how often it occurs, in ascending order of the names.
pub open spec fn tally(names: text::Texts) -> Seq<(Seq<char>, nat)> {
    order::as_set(names, order::by_text()).map_values(|n: Seq<char>| (n, occurrences(names, n)))
}

fn count_text(list: &[String], x: &str) -> (r: usize)
    ensures
        r == occurrences(text::views(list@), x@),
{
    let ghost model = text::views(list@);
    let chars = chars_of(x);
    let mut n: usize = 0;
    let mut i: usize = 0;
    while i < list.len()
        invariant
            n <= i <= list@.len(),
            model == text::views(list@),
            chars@ == x@,
            n == occurrences(model.take(i as int), x@),
        decreases list@.len() - i,
    {
        assert(model.take(i + 1).drop_last() =~= model.take(i as int));
        if scan::same(chars_of(list[i].as_str()).as_slice(), chars.as_slice()) {
            n += 1;
        }
        i += 1;
    }
    assert(model.take(i as int) =~= model);
    n
}

/// The repositories that devices offer, with how often each is offered.
pub fn repository_options(devices: &[DeviceRecord]) -> (r: Vec<RepositoryOption>)
    ensures
        option_views(r@) == tally(offered_names(devices@)),
{
    let mut names: Vec<String> = Vec::new();
    let mut i: usize = 0;
    assert(text::views(names@) =~= offered_names(devices@.take(0)));
    while i < devices.len()
        invariant
            i <= devices@.len(),
            text::views(names@) == offered_names(devices@.take(i as int)),
        decreases devices@.len() - i,
    {
        assert(devices@.take(i + 1).drop_last() =~= devices@.take(i as int));
        let ghost before = text::views(names@);
        let mut more = names_of(selectable_repositories(&devices[i]).as_slice());
        let ghost extra = text::views(more@);
        names.append(&mut more);
        assert(text::views(names@) =~= before + extra);
        i += 1;
    }
    assert(devices@.take(i as int) =~= devices@);
    let ghost all = text::views(names@);
    let set = order::text_set(names.as_slice());
    let mut out: Vec<RepositoryOption> = Vec::new();
    let mut k: usize = 0;
    assert(option_views(out@) =~= tally(all).take(0));
    while k < set.len()
        invariant
            k <= set@.len(),
            all == text::views(names@),
            text::views(set@) == order::as_set(all, order::by_text()),
            option_views(out@) == tally(all).take(k as int),
        decreases set@.len() - k,
    {
        let ghost before = option_views(out@);
        let device_count = count_text(names.as_slice(), set[k].as_str());
        let option = RepositoryOption { name: set[k].clone(), device_count };
        out.push(option);
        assert(option_views(out@) =~= before.push((option.name@, option.device_count as nat)));
        assert(text::views(set@)[k as int] == option.name@);
        assert(tally(all).take(k + 1) =~= tally(all).take(k as int).push(tally(all)[k as int]));
        k += 1;
    }
    assert(tally(all).take(k as int) =~= tally(all));
    out
}

} // verus!
