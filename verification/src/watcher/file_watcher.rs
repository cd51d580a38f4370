//! What becomes of one change notification: filtered, debounced, and
//! enriched with project, language and project directory.

use vstd::prelude::*;
use crate::models::event::{ActivityType, Event, EventType, EventView};
use crate::path::{components, first_below, join, path_components, path_first_below, path_join};
use crate::text::{opt_text, texts};
use crate::util::{ignored_with, infer_language_from_path, is_ignored_with, language_of};
use crate::watcher::debounce::Debouncer;

verus! {

/// The project of `path` under the watched root `root`: the first component
/// below the root, unless it is hidden (starts with a dot).
pub open spec fn project_under(root: Seq<char>, path: Seq<char>) -> Option<Seq<char>> {
    match first_below(root, path) {
        Some(name) => if name.len() > 0 && name[0] == '.' {
            None
        } else {
            Some(name)
        },
        None => None,
    }
}

pub fn resolve_project_name(watched_root: &str, file_path: &str) -> (project: Option<String>)
    ensures
        opt_text(project) == project_under(watched_root@, file_path@),
{
    match path_first_below(watched_root, file_path) {
        Some(name) => {
            if name.as_str().unicode_len() > 0 && name.as_str().get_char(0) == '.' {
                None
            } else {
                Some(name)
            }
        },
        None => None,
    }
}

/// The position of the first root under which `path` has a project.
pub open spec fn resolving_root(roots: Seq<Seq<char>>, path: Seq<char>) -> Option<int>
    decreases roots.len(),
{
    if roots.len() == 0 {
        None
    } else {
        match resolving_root(roots.drop_last(), path) {
            Some(i) => Some(i),
            None => if project_under(roots.last(), path) is Some {
                Some(roots.len() - 1)
            } else {
                None
            },
        }
    }
}

/// A change that passed the filters, with what could be found out about it.
#[derive(Debug, Clone)]
pub struct EnrichedChange {
    pub entity: String,
    pub project: String,
    pub language: Option<String>,
    pub project_dir: String,
}

/// The mathematical content of an [`EnrichedChange`].
pub struct EnrichedChangeView {
    pub entity: Seq<char>,
    pub project: Seq<char>,
    pub language: Option<Seq<char>>,
    pub project_dir: Seq<char>,
}

impl View for EnrichedChange {
    type V = EnrichedChangeView;

    open spec fn view(&self) -> EnrichedChangeView {
        EnrichedChangeView {
            entity: self.entity@,
            project: self.project@,
            language: opt_text(self.language),
            project_dir: self.project_dir@,
        }
    }
}

/// The view of an optional change.
pub open spec fn opt_change(c: Option<EnrichedChange>) -> Option<EnrichedChangeView> {
    match c {
        Some(change) => Some(change@),
        None => None,
    }
}

/// What is found out about a changed path under the watched roots: nothing
/// where no root gives it a project; else the project under the first root
/// that does, the language of the file, and the project's directory, which
/// is the key under which its git branch is looked up.
pub open spec fn enrichment(roots: Seq<Seq<char>>, path: Seq<char>) -> Option<EnrichedChangeView> {
    match resolving_root(roots, path) {
        Some(i) => {
            let project = project_under(roots[i], path)->0;
            Some(
                EnrichedChangeView {
                    entity: path,
                    project,
                    language: language_of(path),
                    project_dir: join(roots[i], project),
                },
            )
        },
        None => None,
    }
}

/// What `resolving_root` finds is a root of the list, and the first that
/// gives the path a project.
pub proof fn lemma_resolving_root(roots: Seq<Seq<char>>, path: Seq<char>)
    ensures
        resolving_root(roots, path) matches Some(i) ==> 0 <= i < roots.len() && project_under(
            roots[i],
            path,
        ) is Some && forall|k: int| 0 <= k < i ==> project_under(#[trigger] roots[k], path) is None,
        resolving_root(roots, path) is None ==> forall|k: int|
            0 <= k < roots.len() ==> project_under(#[trigger] roots[k], path) is None,
    decreases roots.len(),
{
    if roots.len() > 0 {
        lemma_resolving_root(roots.drop_last(), path);
        assert forall|k: int| 0 <= k < roots.len() - 1 implies roots.drop_last()[k] == roots[k] by {}
        if resolving_root(roots.drop_last(), path) is None && project_under(roots.last(), path) is None {
            assert forall|k: int| 0 <= k < roots.len() implies project_under(
                #[trigger] roots[k],
                path,
            ) is None by {
                if k < roots.len() - 1 {
                    assert(roots.drop_last()[k] == roots[k]);
                }
            }
        }
        if resolving_root(roots.drop_last(), path) is Some {
            let i = resolving_root(roots.drop_last(), path)->0;
            assert(roots.drop_last()[i] == roots[i]);
            assert forall|k: int| 0 <= k < i implies project_under(#[trigger] roots[k], path) is None by {
                assert(roots.drop_last()[k] == roots[k]);
            }
        } else if project_under(roots.last(), path) is Some {
            assert forall|k: int| 0 <= k < roots.len() - 1 implies project_under(
                #[trigger] roots[k],
                path,
            ) is None by {
                assert(roots.drop_last()[k] == roots[k]);
            }
        }
    }
}

/// A change under no watched root is dropped: a path that has no project
/// under any root that is registered when it is looked at gets no
/// enrichment, and a path that gets one has the project that one of the
/// registered roots gives it, never another.
pub proof fn lemma_unwatched_is_dropped(roots: Seq<Seq<char>>, path: Seq<char>)
    ensures
        (forall|k: int| 0 <= k < roots.len() ==> project_under(#[trigger] roots[k], path) is None)
            <==> enrichment(roots, path) is None,
        enrichment(roots, path) matches Some(found) ==> exists|k: int|
            0 <= k < roots.len() && project_under(#[trigger] roots[k], path) == Some(found.project),
{
    lemma_resolving_root(roots, path);
}

/// A path that has a project is not empty.
proof fn lemma_project_needs_path(root: Seq<char>, path: Seq<char>)
    requires
        project_under(root, path) is Some,
    ensures
        path.len() > 0,
{
    if path.len() == 0 {
        assert(crate::path::split(path) =~= seq![Seq::<char>::empty()]);
        assert(crate::path::keep_normal(crate::path::split(path).drop_last()) =~= Seq::empty());
        assert(crate::path::keep_normal(crate::path::split(path)) =~= Seq::empty());
        assert(crate::path::components(path).len() == 0);
    }
}

/// A match found among the first roots is the match among all.
proof fn lemma_resolving_root_stays(roots: Seq<Seq<char>>, path: Seq<char>, upto: int)
    requires
        0 <= upto <= roots.len(),
        resolving_root(roots.take(upto), path) is Some,
    ensures
        resolving_root(roots, path) == resolving_root(roots.take(upto), path),
    decreases roots.len() - upto,
{
    if upto < roots.len() {
        assert(roots.take(upto + 1).drop_last() =~= roots.take(upto));
        lemma_resolving_root_stays(roots, path, upto + 1);
    } else {
        assert(roots.take(upto) =~= roots);
    }
}

/// Enriches a changed path from the watched roots as they are now.
pub fn enrich(roots: &Vec<String>, path: &str) -> (found: Option<EnrichedChange>)
    ensures
        opt_change(found) == enrichment(texts(roots@), path@),
        found matches Some(change) ==> change.entity@.len() > 0,
{
    let ghost all = texts(roots@);
    let mut i: usize = 0;
    while i < roots.len()
        invariant
            i <= roots.len(),
            all == texts(roots@),
            resolving_root(all.take(i as int), path@) is None,
        decreases roots.len() - i,
    {
        assert(all.take(i + 1).drop_last() =~= all.take(i as int));
        assert(all.take(i + 1).last() == roots[i as int]@);
        match resolve_project_name(roots[i].as_str(), path) {
            Some(project) => {
                proof {
                    lemma_resolving_root_stays(all, path@, i + 1);
                    lemma_project_needs_path(roots[i as int]@, path@);
                }
                let project_dir = path_join(roots[i].as_str(), project.as_str());
                return Some(
                    EnrichedChange {
                        entity: path.to_owned(),
                        project,
                        language: infer_language_from_path(path),
                        project_dir,
                    },
                );
            },
            None => {},
        }
        i = i + 1;
    }
    assert(all.take(roots.len() as int) =~= all);
    None
}

/// What becomes of a notification of `path` that arrives at the instant
/// `now` of the debouncer's clock. An ignored path is dropped before
/// anything is recorded; a path within its debounce window is suppressed;
/// what passes is enriched, and dropped where no watched root claims it.
/// `extra` are the configured additions to the deny list.
pub fn process_change_at(
    debouncer: &mut Debouncer,
    roots: &Vec<String>,
    extra: &Vec<String>,
    path: &str,
    now: u128,
) -> (found: Option<EnrichedChange>)
    requires
        old(debouncer).wf(),
    ensures
        final(debouncer).wf(),
        ignored_with(path@, texts(extra@)) ==> found is None && final(debouncer)@ == old(
            debouncer,
        )@,
        !ignored_with(path@, texts(extra@)) ==> final(debouncer)@ == old(debouncer)@.after(
            path@,
            now,
        ),
        !ignored_with(path@, texts(extra@)) && !old(debouncer)@.emits(path@, now) ==> found is None,
        !ignored_with(path@, texts(extra@)) && old(debouncer)@.emits(path@, now) ==> opt_change(
            found,
        ) == enrichment(texts(roots@), path@),
{
    if is_ignored_with(path, extra) {
        return None;
    }
    if !debouncer.should_emit_at(path, now) {
        return None;
    }
    enrich(roots, path)
}

/// What becomes of a notification of `path` that arrives now, by the
/// debouncer's own clock.
pub fn process_change(
    debouncer: &mut Debouncer,
    roots: &Vec<String>,
    extra: &Vec<String>,
    path: &str,
) -> (found: Option<EnrichedChange>)
    requires
        old(debouncer).wf(),
    ensures
        final(debouncer).wf(),
        ignored_with(path@, texts(extra@)) ==> found is None && final(debouncer)@ == old(
            debouncer,
        )@,
        !ignored_with(path@, texts(extra@)) ==> exists|now: u128|
            final(debouncer)@ == #[trigger] old(debouncer)@.after(path@, now) && opt_change(found)
                == (if old(debouncer)@.emits(path@, now) {
                enrichment(texts(roots@), path@)
            } else {
                None
            }),
{
    if is_ignored_with(path, extra) {
        return None;
    }
    if !debouncer.should_emit(path) {
        return None;
    }
    enrich(roots, path)
}

/// Whether `path` lies at or below `root`: it begins with all the components
/// of `root`.
pub open spec fn lies_under(root: Seq<char>, path: Seq<char>) -> bool {
    let above = components(root);
    let all = components(path);
    above.len() <= all.len() && all.take(above.len() as int) == above
}

/// The position of the first root at or below which `path` lies.
pub open spec fn covering_root(roots: Seq<Seq<char>>, path: Seq<char>) -> Option<int>
    decreases roots.len(),
{
    if roots.len() == 0 {
        None
    } else {
        match covering_root(roots.drop_last(), path) {
            Some(i) => Some(i),
            None => if lies_under(roots.last(), path) {
                Some(roots.len() - 1)
            } else {
                None
            },
        }
    }
}

/// What is found out about the file shown in the active window: nothing
/// where it lies under no watched root or has no project under the first
/// root that covers it; else project, language and project directory as
/// for a change.
pub open spec fn window_enrichment(roots: Seq<Seq<char>>, path: Seq<char>) -> Option<
    EnrichedChangeView,
> {
    match covering_root(roots, path) {
        Some(i) => match project_under(roots[i], path) {
            Some(project) => Some(
                EnrichedChangeView {
                    entity: path,
                    project,
                    language: language_of(path),
                    project_dir: join(roots[i], project),
                },
            ),
            None => None,
        },
        None => None,
    }
}

fn path_lies_under(root: &str, path: &str) -> (yes: bool)
    ensures
        yes == lies_under(root@, path@),
{
    let above = path_components(root);
    let all = path_components(path);
    if above.len() > all.len() {
        return false;
    }
    let mut i: usize = 0;
    while i < above.len()
        invariant
            i <= above.len() <= all.len(),
            texts(above@) == components(root@),
            texts(all@) == components(path@),
            forall|k: int| 0 <= k < i ==> texts(above@)[k] == texts(all@)[k],
        decreases above.len() - i,
    {
        let same: bool = above[i] == all[i];
        assert(texts(above@)[i as int] == above[i as int]@);
        assert(texts(all@)[i as int] == all[i as int]@);
        if !same {
            assert(texts(all@).take(above.len() as int)[i as int] != texts(above@)[i as int]);
            return false;
        }
        i = i + 1;
    }
    assert(texts(all@).take(above.len() as int) =~= texts(above@));
    true
}

proof fn lemma_covering_root_stays(roots: Seq<Seq<char>>, path: Seq<char>, upto: int)
    requires
        0 <= upto <= roots.len(),
        covering_root(roots.take(upto), path) is Some,
    ensures
        covering_root(roots, path) == covering_root(roots.take(upto), path),
    decreases roots.len() - upto,
{
    if upto < roots.len() {
        assert(roots.take(upto + 1).drop_last() =~= roots.take(upto));
        lemma_covering_root_stays(roots, path, upto + 1);
    } else {
        assert(roots.take(upto) =~= roots);
    }
}

/// Enriches the path of the file shown in the active window.
pub fn enrich_window(roots: &Vec<String>, path: &str) -> (found: Option<EnrichedChange>)
    ensures
        opt_change(found) == window_enrichment(texts(roots@), path@),
{
    let ghost all = texts(roots@);
    let mut i: usize = 0;
    while i < roots.len()
        invariant
            i <= roots.len(),
            all == texts(roots@),
            covering_root(all.take(i as int), path@) is None,
        decreases roots.len() - i,
    {
        assert(all.take(i + 1).drop_last() =~= all.take(i as int));
        assert(all.take(i + 1).last() == roots[i as int]@);
        if path_lies_under(roots[i].as_str(), path) {
            proof {
                lemma_covering_root_stays(all, path@, i + 1);
            }
            return match resolve_project_name(roots[i].as_str(), path) {
                Some(project) => {
                    let project_dir = path_join(roots[i].as_str(), project.as_str());
                    Some(
                        EnrichedChange {
                            entity: path.to_owned(),
                            project,
                            language: infer_language_from_path(path),
                            project_dir,
                        },
                    )
                },
                None => None,
            };
        }
        i = i + 1;
    }
    assert(all.take(roots.len() as int) =~= all);
    None
}

/// The name of this machine: what `HOSTNAME` says, else what `HOST` says,
/// else the host name on file, without the white space around it.
pub open spec fn machine_name(
    hostname: Option<Seq<char>>,
    host: Option<Seq<char>>,
    on_file: Option<Seq<char>>,
) -> Option<Seq<char>> {
    match hostname {
        Some(name) => Some(name),
        None => match host {
            Some(name) => Some(name),
            None => match on_file {
                Some(text) => Some(crate::text::trim(text)),
                None => None,
            },
        },
    }
}

pub fn hostname(from_hostname: Option<String>, from_host: Option<String>, on_file: Option<String>) -> (name:
    Option<String>)
    ensures
        opt_text(name) == machine_name(
            opt_text(from_hostname),
            opt_text(from_host),
            opt_text(on_file),
        ),
{
    match from_hostname {
        Some(name) => Some(name),
        None => match from_host {
            Some(name) => Some(name),
            None => match on_file {
                Some(text) => Some(crate::text::trimmed(text.as_str())),
                None => None,
            },
        },
    }
}

/// The event that an enriched change is stored as.
pub open spec fn change_event(
    change: EnrichedChangeView,
    user_id: u128,
    timestamp: i64,
    branch: Option<Seq<char>>,
    machine: Option<Seq<char>>,
) -> EventView {
    EventView {
        id: None,
        user_id,
        timestamp,
        event_type: EventType::File,
        entity: change.entity,
        project: Some(change.project),
        language: change.language,
        branch,
        activity: Some(ActivityType::Coding),
        machine,
        metadata: None,
        created_at: None,
    }
}

/// Makes the event of an enriched change: a file event of kind coding,
/// stamped with the given instant, not yet stored.
pub fn to_event(
    change: EnrichedChange,
    user_id: u128,
    timestamp: i64,
    branch: Option<String>,
    machine: Option<String>,
) -> (event: Event)
    ensures
        event@ == change_event(change@, user_id, timestamp, opt_text(branch), opt_text(machine)),
{
    Event {
        id: None,
        user_id,
        timestamp,
        event_type: EventType::File,
        entity: change.entity,
        project: Some(change.project),
        language: change.language,
        branch,
        activity: Some(ActivityType::Coding),
        machine,
        metadata: None,
        created_at: None,
    }
}

} // verus!
