//! The catalog: what is running, what could be started, and the merge of the
//! two into one list with online entries first.

use crate::annotations::Annotations;
use crate::error::{Upstream, ZeusError, ZeusErrorView};
use crate::pod_templates::{
    file_views, lemma_templates_entries, list_templates, template_in, template_views, templates_of,
    TemplateFile, TemplateFileView, TemplateView,
};
use vstd::prelude::*;
use vstd::std_specs::cmp::PartialEqSpecImpl;

verus! {

/// The status of one named workload as callers see it.
///
/// `status` is `Offline` for a template that is not running, and the phase
/// that the cluster reports (`Running`, `Pending`, ...) for an instance.
#[derive(Debug)]
pub struct PodState {
    pub status: String,
    pub name: String,
    pub version: String,
    pub description: String,
}

/// A `PodState` as plain sequences of characters.
pub struct PodStateView {
    pub status: Seq<char>,
    pub name: Seq<char>,
    pub version: Seq<char>,
    pub description: Seq<char>,
}

impl View for PodState {
    type V = PodStateView;

    open spec fn view(&self) -> PodStateView {
        PodStateView {
            status: self.status@,
            name: self.name@,
            version: self.version@,
            description: self.description@,
        }
    }
}

impl Clone for PodState {
    fn clone(&self) -> (copy: PodState)
        ensures
            copy@ == self@,
    {
        PodState {
            status: self.status.clone(),
            name: self.name.clone(),
            version: self.version.clone(),
            description: self.description.clone(),
        }
    }
}

/// Two entries are the same workload when their names agree, whatever their
/// status, version and description say.
impl PartialEq for PodState {
    fn eq(&self, other: &PodState) -> (same: bool) {
        self.name == other.name
    }
}

impl PartialEqSpecImpl for PodState {
    open spec fn obeys_eq_spec() -> bool {
        true
    }

    open spec fn eq_spec(&self, other: &PodState) -> bool {
        self.name@ == other.name@
    }
}

/// The entries of a list, each by its view.
pub open spec fn catalog_view(entries: Seq<PodState>) -> Seq<PodStateView> {
    Seq::new(entries.len(), |i: int| entries[i]@)
}

/// Whether some entry of `entries` is named `name`.
pub open spec fn has_name(entries: Seq<PodStateView>, name: Seq<char>) -> bool {
    exists|i: int| 0 <= i < entries.len() && (#[trigger] entries[i]).name == name
}

/// The offline entries that no online entry shadows, in their own order.
pub open spec fn survivors(online: Seq<PodStateView>, offline: Seq<PodStateView>) -> Seq<
    PodStateView,
> {
    offline.filter(|entry: PodStateView| !has_name(online, entry.name))
}

/// The full catalog: every online entry as the cluster gave it, then every
/// offline entry whose name no online entry carries.
pub open spec fn merged(online: Seq<PodStateView>, offline: Seq<PodStateView>) -> Seq<
    PodStateView,
> {
    online + survivors(online, offline)
}

/// Whether one of the first `limit` entries of `entries` is named `name`.
fn names_within(entries: &Vec<PodState>, limit: usize, name: &String) -> (found: bool)
    requires
        limit <= entries.len(),
    ensures
        found == has_name(catalog_view(entries@).take(limit as int), name@),
{
    let ghost head = catalog_view(entries@).take(limit as int);
    let mut i: usize = 0;
    while i < limit
        invariant
            i <= limit <= entries.len(),
            head == catalog_view(entries@).take(limit as int),
            forall|j: int| 0 <= j < i ==> (#[trigger] head[j]).name != name@,
        decreases limit - i,
    {
        if entries[i].name == *name {
            assert(head[i as int].name == name@);
            return true;
        }
        i += 1;
    }
    false
}

/// Merges the online entries with the offline ones.
///
/// The result starts with `online`, unchanged and in its order. An offline
/// entry follows, in the order of `offline`, exactly when no online entry
/// has its name; an online entry therefore always wins over the template of
/// the same name.
pub fn merge(online: Vec<PodState>, offline: &Vec<PodState>) -> (all: Vec<PodState>)
    ensures
        catalog_view(all@) == merged(catalog_view(online@), catalog_view(offline@)),
{
    let ghost on = catalog_view(online@);
    let ghost off = catalog_view(offline@);
    let ghost keep = |entry: PodStateView| !has_name(on, entry.name);
    let count = online.len();
    let mut all = online;
    let mut i: usize = 0;
    proof {
        reveal(Seq::filter);
    }
    assert(off.take(0).filter(keep) =~= Seq::<PodStateView>::empty());
    assert(catalog_view(all@) =~= on + off.take(0).filter(keep));
    while i < offline.len()
        invariant
            i <= offline.len(),
            count == on.len(),
            count <= all.len(),
            off == catalog_view(offline@),
            keep == (|entry: PodStateView| !has_name(on, entry.name)),
            catalog_view(all@) == on + off.take(i as int).filter(keep),
        decreases offline.len() - i,
    {
        let entry = &offline[i];
        let shadowed = names_within(&all, count, &entry.name);
        proof {
            reveal(Seq::filter);
            assert(catalog_view(all@).take(count as int) =~= on);
            assert(off.take(i + 1).drop_last() =~= off.take(i as int));
            assert(off.take(i + 1).last() == entry@);
            assert(shadowed == !keep(entry@));
        }
        if !shadowed {
            let ghost before = catalog_view(all@);
            all.push(entry.clone());
            assert(catalog_view(all@) =~= before.push(entry@));
            assert(catalog_view(all@) =~= on + off.take(i + 1).filter(keep));
        }
        i += 1;
    }
    assert(off.take(i as int) =~= off);
    all
}

/// Whether no two entries of `entries` share a name.
pub open spec fn distinct_names(entries: Seq<PodStateView>) -> bool {
    forall|i: int, j: int|
        0 <= i < j < entries.len() ==> (#[trigger] entries[i]).name != (#[trigger] entries[j]).name
}

/// What filtering keeps: only entries of the list that pass, all of those,
/// and never two of one name where the list had none.
proof fn lemma_filter_entries(s: Seq<PodStateView>, pred: spec_fn(PodStateView) -> bool)
    ensures
        forall|k: int|
            0 <= k < s.filter(pred).len() ==> s.contains(#[trigger] s.filter(pred)[k]) && pred(
                s.filter(pred)[k],
            ),
        forall|i: int| 0 <= i < s.len() && pred(s[i]) ==> s.filter(pred).contains(#[trigger] s[i]),
        distinct_names(s) ==> distinct_names(s.filter(pred)),
    decreases s.len(),
{
    reveal(Seq::filter);
    let out = s.filter(pred);
    if s.len() > 0 {
        let front = s.drop_last();
        let kept = front.filter(pred);
        lemma_filter_entries(front, pred);
        assert forall|k: int| 0 <= k < out.len() implies s.contains(#[trigger] out[k]) && pred(
            out[k],
        ) by {
            if k < kept.len() {
                assert(front.contains(kept[k]));
                let i = choose|i: int| 0 <= i < front.len() && front[i] == kept[k];
                assert(s[i] == out[k]);
            } else {
                assert(s[s.len() - 1] == out[k]);
            }
        }
        assert forall|i: int| 0 <= i < s.len() && pred(s[i]) implies out.contains(
            #[trigger] s[i],
        ) by {
            if i < front.len() {
                assert(front[i] == s[i]);
                assert(kept.contains(front[i]));
                let k = choose|k: int| 0 <= k < kept.len() && kept[k] == front[i];
                assert(out[k] == s[i]);
            } else {
                assert(out[out.len() - 1] == s[i]);
            }
        }
        if distinct_names(s) {
            assert(distinct_names(front)) by {
                assert forall|i: int, j: int| 0 <= i < j < front.len() implies (
                #[trigger] front[i]).name != (#[trigger] front[j]).name by {
                    assert(front[i] == s[i] && front[j] == s[j]);
                }
            }
            assert forall|a: int, b: int| 0 <= a < b < out.len() implies (#[trigger] out[a]).name
                != (#[trigger] out[b]).name by {
                if b < kept.len() {
                    assert(out[a] == kept[a] && out[b] == kept[b]);
                } else {
                    assert(out[b] == s[s.len() - 1]);
                    assert(out[a] == kept[a]);
                    assert(front.contains(kept[a]));
                    let i = choose|i: int| 0 <= i < front.len() && front[i] == kept[a];
                    assert(s[i] == out[a]);
                }
            }
        }
    }
}

/// The online entries stand at the head of the catalog, each in its place
/// and unchanged.
pub proof fn lemma_online_entries_kept(online: Seq<PodStateView>, offline: Seq<PodStateView>)
    ensures
        merged(online, offline).len() >= online.len(),
        merged(online, offline).take(online.len() as int) == online,
        forall|i: int| 0 <= i < online.len() ==> (#[trigger] merged(online, offline)[i]) == online[i],
{
    assert(merged(online, offline).take(online.len() as int) =~= online);
}

/// Every entry behind the online ones is an offline entry that no online
/// entry shadows, and every such offline entry is in the catalog.
pub proof fn lemma_offline_entries_kept(online: Seq<PodStateView>, offline: Seq<PodStateView>)
    ensures
        forall|k: int|
            online.len() <= k < merged(online, offline).len() ==> offline.contains(
                #[trigger] merged(online, offline)[k],
            ) && !has_name(online, merged(online, offline)[k].name),
        forall|i: int|
            0 <= i < offline.len() && !has_name(online, offline[i].name) ==> merged(
                online,
                offline,
            ).contains(#[trigger] offline[i]),
{
    let keep = |entry: PodStateView| !has_name(online, entry.name);
    let rest = survivors(online, offline);
    let all = merged(online, offline);
    lemma_filter_entries(offline, keep);
    assert forall|k: int| online.len() <= k < all.len() implies offline.contains(#[trigger] all[k])
        && !has_name(online, all[k].name) by {
        assert(all[k] == rest[k - online.len()]);
    }
    assert forall|i: int|
        0 <= i < offline.len() && !has_name(online, offline[i].name) implies all.contains(
        #[trigger] offline[i],
    ) by {
        assert(keep(offline[i]));
        assert(rest.contains(offline[i]));
        let k = choose|k: int| 0 <= k < rest.len() && rest[k] == offline[i];
        assert(all[online.len() + k] == offline[i]);
    }
}

/// Online wins: an entry of the catalog whose name some online entry has is
/// itself an online entry, at the place where the cluster listed it.
pub proof fn lemma_online_takes_precedence(
    online: Seq<PodStateView>,
    offline: Seq<PodStateView>,
    k: int,
)
    requires
        0 <= k < merged(online, offline).len(),
        has_name(online, merged(online, offline)[k].name),
    ensures
        k < online.len(),
        merged(online, offline)[k] == online[k],
{
    lemma_offline_entries_kept(online, offline);
}

/// Nothing is left out and nothing is made up: the catalog has an entry of
/// a name exactly when an online or an offline entry has that name.
pub proof fn lemma_merge_complete(
    online: Seq<PodStateView>,
    offline: Seq<PodStateView>,
    name: Seq<char>,
)
    ensures
        has_name(merged(online, offline), name) <==> has_name(online, name) || has_name(
            offline,
            name,
        ),
{
    let all = merged(online, offline);
    lemma_offline_entries_kept(online, offline);
    if has_name(all, name) {
        let k = choose|k: int| 0 <= k < all.len() && (#[trigger] all[k]).name == name;
        if k < online.len() {
            assert(online[k].name == name);
        } else {
            assert(offline.contains(all[k]));
            let i = choose|i: int| 0 <= i < offline.len() && offline[i] == all[k];
            assert(offline[i].name == name);
        }
    }
    if has_name(online, name) {
        let i = choose|i: int| 0 <= i < online.len() && (#[trigger] online[i]).name == name;
        assert(all[i].name == name);
    } else if has_name(offline, name) {
        let i = choose|i: int| 0 <= i < offline.len() && (#[trigger] offline[i]).name == name;
        assert(all.contains(offline[i]));
        let k = choose|k: int| 0 <= k < all.len() && all[k] == offline[i];
        assert(all[k].name == name);
    }
}

/// Each name once: where neither the online nor the offline entries repeat
/// a name, the catalog repeats none.
pub proof fn lemma_merge_names_once(online: Seq<PodStateView>, offline: Seq<PodStateView>)
    requires
        distinct_names(online),
        distinct_names(offline),
    ensures
        distinct_names(merged(online, offline)),
{
    let keep = |entry: PodStateView| !has_name(online, entry.name);
    let rest = survivors(online, offline);
    let all = merged(online, offline);
    lemma_filter_entries(offline, keep);
    assert forall|a: int, b: int| 0 <= a < b < all.len() implies (#[trigger] all[a]).name != (
    #[trigger] all[b]).name by {
        if b < online.len() {
            assert(all[a] == online[a] && all[b] == online[b]);
        } else if a < online.len() {
            assert(all[a] == online[a]);
            assert(all[b] == rest[b - online.len()]);
            assert(keep(rest[b - online.len()]));
        } else {
            assert(all[a] == rest[a - online.len()]);
            assert(all[b] == rest[b - online.len()]);
        }
    }
}

/// The status of a workload that is not running.
pub open spec fn offline_status() -> Seq<char> {
    "Offline"@
}

/// The catalog entry of a template: the template's name, version and
/// description, with the status forced to `Offline`.
pub open spec fn offline_state(template: TemplateView) -> PodStateView {
    PodStateView {
        status: offline_status(),
        name: template.name,
        version: template.version,
        description: template.description,
    }
}

/// The offline catalog of a directory: the entry of each of its templates,
/// in the directory's order, or the failure of the template listing.
pub open spec fn offline_of(files: Seq<TemplateFileView>) -> Result<
    Seq<PodStateView>,
    ZeusErrorView,
> {
    match templates_of(files) {
        Ok(found) => Ok(Seq::new(found.len(), |i: int| offline_state(found[i]))),
        Err(e) => Err(e),
    }
}

/// Builds the offline catalog from the files of the template directory.
///
/// Every file must hold a template: a file that could not be read, or
/// whose text lacks the name, the version or the description, fails the
/// whole listing with a `ServerError` that names the template, and no entry
/// is handed out.
pub fn offline_pods(files: &Vec<TemplateFile>) -> (listing: Result<Vec<PodState>, ZeusError>)
    ensures
        match listing {
            Ok(entries) => offline_of(file_views(files@)) == Ok::<
                Seq<PodStateView>,
                ZeusErrorView,
            >(catalog_view(entries@)),
            Err(e) => offline_of(file_views(files@)) == Err::<Seq<PodStateView>, ZeusErrorView>(
                e@,
            ),
        },
{
    let found = match list_templates(files) {
        Ok(found) => found,
        Err(e) => {
            return Err(e);
        },
    };
    let mut entries: Vec<PodState> = Vec::new();
    let mut i: usize = 0;
    while i < found.len()
        invariant
            i <= found.len(),
            entries.len() == i,
            forall|k: int| 0 <= k < i ==> (#[trigger] entries[k])@ == offline_state(found[k]@),
        decreases found.len() - i,
    {
        let template = &found[i];
        entries.push(
            PodState {
                status: "Offline".to_owned(),
                name: template.name.clone(),
                version: template.version.clone(),
                description: template.description.clone(),
            },
        );
        i += 1;
    }
    assert(catalog_view(entries@) =~= Seq::new(
        template_views(found@).len(),
        |i: int| offline_state(template_views(found@)[i]),
    ));
    Ok(entries)
}

/// One workload that the cluster reports, as far as the catalog reads it:
/// its name and phase where the cluster gave them, and its annotations.
#[derive(Debug)]
pub struct Instance {
    pub name: Option<String>,
    pub phase: Option<String>,
    pub annotations: Annotations,
}

/// An `Instance` as plain sequences of characters.
pub struct InstanceView {
    pub name: Option<Seq<char>>,
    pub phase: Option<Seq<char>>,
    pub annotations: Map<Seq<char>, Seq<char>>,
}

impl View for Instance {
    type V = InstanceView;

    open spec fn view(&self) -> InstanceView {
        InstanceView {
            name: match self.name {
                Some(text) => Some(text@),
                None => None,
            },
            phase: match self.phase {
                Some(text) => Some(text@),
                None => None,
            },
            annotations: self.annotations@,
        }
    }
}

/// The label that marks the workloads of this catalog in the cluster.
pub open spec fn selector() -> Seq<char> {
    "type=game"@
}

/// The label selector to list the cluster's instances with.
pub fn online_selector() -> (label: String)
    ensures
        label@ == selector(),
{
    "type=game".to_owned()
}

/// The catalog entry of one instance: its own name, its phase as status,
/// and the version and description of its annotations. `None` where one of
/// the four is missing.
pub open spec fn online_entry(instance: InstanceView) -> Option<PodStateView> {
    if instance.name is Some && instance.phase is Some && instance.annotations.contains_key(
        "version"@,
    ) && instance.annotations.contains_key("description"@) {
        Some(
            PodStateView {
                status: instance.phase->0,
                name: instance.name->0,
                version: instance.annotations["version"@],
                description: instance.annotations["description"@],
            },
        )
    } else {
        None
    }
}

/// The text of the failure for an instance that lacks a name, a phase, a
/// version or a description.
pub open spec fn incomplete_text() -> Seq<char> {
    "Pod without name, phase, version or description"@
}

/// The online catalog: the entry of each instance, in the cluster's order,
/// where every instance gives one; else a `ServerError`.
pub open spec fn online_of(instances: Seq<InstanceView>) -> Result<
    Seq<PodStateView>,
    ZeusErrorView,
> {
    if forall|i: int| 0 <= i < instances.len() ==> online_entry(#[trigger] instances[i]) is Some {
        Ok(Seq::new(instances.len(), |i: int| online_entry(instances[i])->0))
    } else {
        Err(ZeusErrorView::ServerError(incomplete_text()))
    }
}

/// The instances of a list, each by its view.
pub open spec fn instance_views(instances: Seq<Instance>) -> Seq<InstanceView> {
    Seq::new(instances.len(), |i: int| instances[i]@)
}

/// Builds the online catalog from the instances that the cluster listed.
///
/// The running instance speaks for itself: name, version and description
/// are its own, not those of its template, and its status is its phase. An
/// instance that lacks one of them fails the whole listing with a
/// `ServerError`.
pub fn online_pods(instances: &Vec<Instance>) -> (listing: Result<Vec<PodState>, ZeusError>)
    ensures
        match listing {
            Ok(entries) => online_of(instance_views(instances@)) == Ok::<
                Seq<PodStateView>,
                ZeusErrorView,
            >(catalog_view(entries@)),
            Err(e) => online_of(instance_views(instances@)) == Err::<
                Seq<PodStateView>,
                ZeusErrorView,
            >(e@),
        },
{
    let ghost all = instance_views(instances@);
    let mut entries: Vec<PodState> = Vec::new();
    let mut i: usize = 0;
    while i < instances.len()
        invariant
            i <= instances.len(),
            all == instance_views(instances@),
            entries.len() == i,
            forall|k: int|
                0 <= k < i ==> online_entry(#[trigger] all[k]) == Some(entries[k]@),
        decreases instances.len() - i,
    {
        let instance = &instances[i];
        let version = instance.annotations.get("version");
        let description = instance.annotations.get("description");
        assert(all[i as int] == instance@);
        match (&instance.name, &instance.phase, version, description) {
            (Some(name), Some(phase), Some(version), Some(description)) => {
                entries.push(
                    PodState { status: phase.clone(), name: name.clone(), version, description },
                );
            },
            _ => {
                assert(online_entry(all[i as int]) is None);
                return Err(
                    ZeusError::from_upstream(
                        Upstream::Cluster,
                        "Pod without name, phase, version or description".to_owned(),
                    ),
                );
            },
        }
        i += 1;
    }
    assert(catalog_view(entries@) =~= Seq::new(all.len(), |i: int| online_entry(all[i])->0));
    Ok(entries)
}

/// What the cluster answered to the listing, by views: the instances, or
/// the reason why there are none.
pub open spec fn listed_instances(listing: Result<Vec<Instance>, String>) -> Result<
    Seq<InstanceView>,
    Seq<char>,
> {
    match listing {
        Ok(instances) => Ok(instance_views(instances@)),
        Err(reason) => Err(reason@),
    }
}

/// What reading the template directory gave, by views: the files, or the
/// reason why there are none.
pub open spec fn listed_files(listing: Result<Vec<TemplateFile>, String>) -> Result<
    Seq<TemplateFileView>,
    Seq<char>,
> {
    match listing {
        Ok(files) => Ok(file_views(files@)),
        Err(reason) => Err(reason@),
    }
}

/// The online catalog, given what the cluster answered: a failed call is a
/// `ServerError` with the cluster's reason.
pub open spec fn online_catalog_of(instances: Result<Seq<InstanceView>, Seq<char>>) -> Result<
    Seq<PodStateView>,
    ZeusErrorView,
> {
    match instances {
        Ok(list) => online_of(list),
        Err(reason) => Err(ZeusErrorView::ServerError(reason)),
    }
}

/// The offline catalog, given what reading the directory gave: an
/// unreadable directory is a `ServerError` with the reason.
pub open spec fn offline_catalog_of(files: Result<Seq<TemplateFileView>, Seq<char>>) -> Result<
    Seq<PodStateView>,
    ZeusErrorView,
> {
    match files {
        Ok(list) => offline_of(list),
        Err(reason) => Err(ZeusErrorView::ServerError(reason)),
    }
}

/// The full catalog, given both sources: the merge of the two catalogs
/// where both can be had, else the failure of the cluster, or else that of
/// the directory.
pub open spec fn catalog_of(
    instances: Result<Seq<InstanceView>, Seq<char>>,
    files: Result<Seq<TemplateFileView>, Seq<char>>,
) -> Result<Seq<PodStateView>, ZeusErrorView> {
    match online_catalog_of(instances) {
        Err(e) => Err(e),
        Ok(online) => match offline_catalog_of(files) {
            Err(e) => Err(e),
            Ok(offline) => Ok(merged(online, offline)),
        },
    }
}

/// Lists what is running, given the cluster's answer to a listing by
/// `online_selector`.
pub fn online(instances: Result<Vec<Instance>, String>) -> (listing: Result<
    Vec<PodState>,
    ZeusError,
>)
    ensures
        match listing {
            Ok(entries) => online_catalog_of(listed_instances(instances)) == Ok::<
                Seq<PodStateView>,
                ZeusErrorView,
            >(catalog_view(entries@)),
            Err(e) => online_catalog_of(listed_instances(instances)) == Err::<
                Seq<PodStateView>,
                ZeusErrorView,
            >(e@),
        },
{
    match instances {
        Ok(list) => online_pods(&list),
        Err(reason) => Err(ZeusError::from_upstream(Upstream::Cluster, reason)),
    }
}

/// Lists every workload, running or not, given the cluster's answer and the
/// files of the template directory.
///
/// The catalog is the merge of the online and the offline entries. It is
/// all or nothing: where the cluster's call failed, a file gives no entry or
/// the directory could not be read, the answer is that failure and no
/// entry.
pub fn all_pods(
    instances: Result<Vec<Instance>, String>,
    files: Result<Vec<TemplateFile>, String>,
) -> (listing: Result<Vec<PodState>, ZeusError>)
    ensures
        match listing {
            Ok(entries) => catalog_of(listed_instances(instances), listed_files(files)) == Ok::<
                Seq<PodStateView>,
                ZeusErrorView,
            >(catalog_view(entries@)),
            Err(e) => catalog_of(listed_instances(instances), listed_files(files)) == Err::<
                Seq<PodStateView>,
                ZeusErrorView,
            >(e@),
        },
{
    let running = match online(instances) {
        Ok(entries) => entries,
        Err(e) => {
            return Err(e);
        },
    };
    let declared = match files {
        Ok(list) => offline_pods(&list),
        Err(reason) => Err(ZeusError::from_upstream(Upstream::Io, reason)),
    };
    match declared {
        Ok(offline) => Ok(merge(running, &offline)),
        Err(e) => Err(e),
    }
}

/// All or nothing: where the cluster's call fails, the full catalog is
/// that failure, a `ServerError`, whatever the template directory holds.
pub proof fn lemma_cluster_failure_fails_catalog(
    reason: Seq<char>,
    files: Result<Seq<TemplateFileView>, Seq<char>>,
)
    ensures
        catalog_of(Err(reason), files) == Err::<Seq<PodStateView>, ZeusErrorView>(
            ZeusErrorView::ServerError(reason),
        ),
{
}

/// All or nothing: the full catalog is there exactly when both the online
/// and the offline catalog are, and every failure is a `ServerError`.
pub proof fn lemma_catalog_all_or_nothing(
    instances: Result<Seq<InstanceView>, Seq<char>>,
    files: Result<Seq<TemplateFileView>, Seq<char>>,
)
    ensures
        catalog_of(instances, files) is Ok <==> online_catalog_of(instances) is Ok
            && offline_catalog_of(files) is Ok,
        catalog_of(instances, files) matches Err(e) ==> e is ServerError,
{
    if let Ok(list) = files {
        lemma_templates_entries(list);
    }
}

/// The offline catalog entry by entry: it is there exactly when every file
/// holds a template, and then holds, in the directory's order, each
/// template's name, version and description with the status `Offline`.
pub proof fn lemma_offline_entries(files: Seq<TemplateFileView>)
    ensures
        offline_of(files) is Ok <==> forall|i: int|
            0 <= i < files.len() ==> template_in(#[trigger] files[i]) is Some,
        offline_of(files) matches Ok(entries) ==> entries.len() == files.len() && forall|i: int|
            0 <= i < files.len() ==> template_in(files[i]) is Some && #[trigger] entries[i]
                == offline_state(template_in(files[i])->0),
{
    lemma_templates_entries(files);
}

} // verus!
