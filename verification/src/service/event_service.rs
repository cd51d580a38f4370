//! Accepting events: validation and the filling in of what a request leaves
//! open.

use vstd::prelude::*;
use crate::api::{BatchEventRequest, BatchEventResponse, CreateEventRequest, EventResponse};
use crate::error::{AppError, AppErrorView};
use crate::models::event::{Event, EventView};
use crate::path::{components, dot, dot_dot, path_components, slash};
use crate::text::{opt_text, same_text, texts};
use crate::util::{infer_language_from_path, language_of};

verus! {

/// The longest entity that is accepted, in bytes.
pub const MAX_ENTITY_BYTES: usize = 1024;

/// The most events that one batch may hold.
pub const MAX_BATCH: usize = 100;

/// What is wrong with the entity of a request, if anything: it must not be
/// empty and not longer than 1024 bytes of UTF-8.
pub open spec fn entity_fault(entity: Seq<char>) -> Option<Seq<char>> {
    if entity.len() == 0 {
        Some("entity cannot be empty"@)
    } else if vstd::utf8::encode_utf8(entity).len() > 1024 {
        Some("entity too long"@)
    } else {
        None
    }
}

pub fn validate_event(req: &CreateEventRequest) -> (outcome: Result<(), AppError>)
    ensures
        outcome is Ok <==> entity_fault(req.entity@) is None,
        outcome matches Err(e) ==> e@ == AppErrorView::Validation(entity_fault(req.entity@)->0),
{
    if req.entity.as_str().unicode_len() == 0 {
        return Err(AppError::Validation("entity cannot be empty".to_owned()));
    }
    if req.entity.as_str().as_bytes().len() > MAX_ENTITY_BYTES {
        return Err(AppError::Validation("entity too long".to_owned()));
    }
    Ok(())
}

/// A component that is a name: not the root, not `.`, not `..`.
pub open spec fn is_name(c: Seq<char>) -> bool {
    c != slash() && c != dot() && c != dot_dot()
}

/// Directories that are part of a project, not the project itself.
pub open spec fn inner_directory(name: Seq<char>) -> bool {
    ||| name == "src"@
    ||| name == "lib"@
    ||| name == "bin"@
    ||| name == "test"@
    ||| name == "tests"@
    ||| name == "spec"@
    ||| name == "node_modules"@
    ||| name == ".git"@
}

/// Directories in which projects are commonly kept.
pub open spec fn projects_home(name: Seq<char>) -> bool {
    ||| name == "home"@
    ||| name == "Users"@
    ||| name == "projects"@
    ||| name == "repos"@
    ||| name == "workspace"@
    ||| name == "workSpace"@
    ||| name == "code"@
    ||| name == "dev"@
    ||| name == "src"@
}

/// The project guessed from the first `upto` components of a path, looked at
/// from the last of them upwards. The search ends without a project at a
/// component that is no name. A directory that is part of a project is
/// passed over. Any other directory is the project where it lies directly
/// in a directory in which projects are kept, or at the top of the path.
pub open spec fn project_among(c: Seq<Seq<char>>, upto: int) -> Option<Seq<char>>
    decreases upto,
{
    if upto <= 0 || upto > c.len() || !is_name(c[upto - 1]) {
        None
    } else if inner_directory(c[upto - 1]) {
        project_among(c, upto - 1)
    } else if (upto >= 2 && projects_home(c[upto - 2])) || upto == 1 || (upto == 2 && c[0]
        == slash()) {
        Some(c[upto - 1])
    } else {
        project_among(c, upto - 1)
    }
}

/// The project guessed from an entity that is a path: the directories above
/// the file are looked at, the nearest first. A best guess, which may find
/// nothing for a path that a reader would place.
pub open spec fn guessed_project(entity: Seq<char>) -> Option<Seq<char>> {
    let c = components(entity);
    project_among(c, c.len() - 1)
}

fn is_inner_directory(name: &str) -> (yes: bool)
    ensures
        yes == inner_directory(name@),
{
    same_text(name, "src") || same_text(name, "lib") || same_text(name, "bin") || same_text(
        name,
        "test",
    ) || same_text(name, "tests") || same_text(name, "spec") || same_text(name, "node_modules")
        || same_text(name, ".git")
}

fn is_projects_home(name: &str) -> (yes: bool)
    ensures
        yes == projects_home(name@),
{
    same_text(name, "home") || same_text(name, "Users") || same_text(name, "projects")
        || same_text(name, "repos") || same_text(name, "workspace") || same_text(name, "workSpace")
        || same_text(name, "code") || same_text(name, "dev") || same_text(name, "src")
}

fn names_a_directory(c: &str) -> (yes: bool)
    ensures
        yes == is_name(c@),
{
    proof {
        reveal_strlit("/");
        reveal_strlit(".");
        reveal_strlit("..");
        assert("/"@ =~= slash());
        assert("."@ =~= dot());
        assert(".."@ =~= dot_dot());
    }
    !same_text(c, "/") && !same_text(c, ".") && !same_text(c, "..")
}

pub fn infer_project_from_path(entity: &str) -> (project: Option<String>)
    ensures
        opt_text(project) == guessed_project(entity@),
{
    let c = path_components(entity);
    if c.len() == 0 {
        return None;
    }
    let ghost all = texts(c@);
    let mut upto: usize = c.len() - 1;
    while upto > 0
        invariant
            upto < c.len(),
            all == texts(c@),
            all == components(entity@),
            project_among(all, upto as int) == guessed_project(entity@),
        decreases upto,
    {
        let name = &c[upto - 1];
        assert(all[upto - 1] == name@);
        if !names_a_directory(name.as_str()) {
            return None;
        }
        if !is_inner_directory(name.as_str()) {
            let mut found: bool = upto == 1;
            if upto >= 2 {
                assert(all[upto - 2] == c[upto - 2]@);
                if is_projects_home(c[upto - 2].as_str()) {
                    found = true;
                }
                if upto == 2 {
                    proof {
                        reveal_strlit("/");
                        assert("/"@ =~= slash());
                    }
                    if same_text(c[0].as_str(), "/") {
                        found = true;
                    }
                }
            }
            if found {
                return Some(name.clone());
            }
        }
        upto = upto - 1;
    }
    None
}

/// The text of a field that is given and not empty.
pub open spec fn given(field: Option<Seq<char>>) -> Option<Seq<char>> {
    match field {
        Some(text) => if text.len() > 0 {
            Some(text)
        } else {
            None
        },
        None => None,
    }
}

/// The project of an event: the one the request names, else the one guessed
/// from its entity.
pub open spec fn project_for(project: Option<Seq<char>>, entity: Seq<char>) -> Option<Seq<char>> {
    match given(project) {
        Some(p) => Some(p),
        None => guessed_project(entity),
    }
}

/// The language of an event: the one the request names, else the one
/// inferred from its entity.
pub open spec fn language_for(language: Option<Seq<char>>, entity: Seq<char>) -> Option<Seq<char>> {
    match given(language) {
        Some(l) => Some(l),
        None => language_of(entity),
    }
}

pub fn normalize_project(req: &CreateEventRequest) -> (project: Option<String>)
    ensures
        opt_text(project) == project_for(opt_text(req.project), req.entity@),
{
    match &req.project {
        Some(p) => {
            if p.as_str().unicode_len() > 0 {
                return Some(p.clone());
            }
        },
        None => {},
    }
    infer_project_from_path(req.entity.as_str())
}

pub fn normalize_language(req: &CreateEventRequest) -> (language: Option<String>)
    ensures
        opt_text(language) == language_for(opt_text(req.language), req.entity@),
{
    match &req.language {
        Some(l) => {
            if l.as_str().unicode_len() > 0 {
                return Some(l.clone());
            }
        },
        None => {},
    }
    infer_language_from_path(req.entity.as_str())
}

/// The event that a valid request of a user is stored as.
pub open spec fn event_of(user_id: u128, req: CreateEventRequest) -> EventView {
    EventView {
        id: None,
        user_id,
        timestamp: req.timestamp,
        event_type: req.event_type,
        entity: req.entity@,
        project: project_for(opt_text(req.project), req.entity@),
        language: language_for(opt_text(req.language), req.entity@),
        branch: opt_text(req.branch),
        activity: req.activity,
        machine: opt_text(req.machine),
        metadata: opt_text(req.metadata),
        created_at: None,
    }
}

/// Makes the event of a request: refused where the entity is at fault, else
/// the request with project and language filled in, ready to be stored.
pub fn prepare_event(user_id: u128, req: &CreateEventRequest) -> (prepared: Result<Event, AppError>)
    ensures
        prepared is Ok <==> entity_fault(req.entity@) is None,
        prepared matches Ok(event) ==> event@ == event_of(user_id, *req),
        prepared matches Err(e) ==> e@ == AppErrorView::Validation(entity_fault(req.entity@)->0),
{
    match validate_event(req) {
        Err(e) => Err(e),
        Ok(_) => {
            let project = normalize_project(req);
            let language = normalize_language(req);
            Ok(
                Event {
                    id: None,
                    user_id,
                    timestamp: req.timestamp,
                    event_type: req.event_type,
                    entity: req.entity.clone(),
                    project,
                    language,
                    branch: req.branch.clone(),
                    activity: req.activity,
                    machine: req.machine.clone(),
                    metadata: req.metadata.clone(),
                    created_at: None,
                },
            )
        },
    }
}

/// The answer to a request whose event was stored under `id`.
pub fn event_response(id: i64, event: Event) -> (response: EventResponse)
    ensures
        response.id == id,
        response.timestamp == event.timestamp,
        response.event_type == event.event_type,
        response.entity == event.entity,
{
    EventResponse {
        id,
        timestamp: event.timestamp,
        event_type: event.event_type,
        entity: event.entity,
    }
}

/// A batch after validation: the events to store, in the order of the
/// requests, and the number of requests that were refused.
pub struct PreparedBatch {
    pub events: Vec<Event>,
    pub rejected: usize,
}

/// The events of the valid requests among `reqs`, in order.
pub open spec fn valid_events(user_id: u128, reqs: Seq<CreateEventRequest>) -> Seq<EventView>
    decreases reqs.len(),
{
    if reqs.len() == 0 {
        Seq::empty()
    } else {
        let before = valid_events(user_id, reqs.drop_last());
        if entity_fault(reqs.last().entity@) is None {
            before.push(event_of(user_id, reqs.last()))
        } else {
            before
        }
    }
}

/// The contents of a list of events.
pub open spec fn event_views(events: Seq<Event>) -> Seq<EventView> {
    Seq::new(events.len(), |k: int| events[k]@)
}

/// Validates a batch. A batch of more than a hundred requests is refused as
/// a whole; in any other, each request stands for itself.
pub fn prepare_batch(user_id: u128, req: &BatchEventRequest) -> (prepared: Result<
    PreparedBatch,
    AppError,
>)
    ensures
        prepared is Ok <==> req.events@.len() <= 100,
        prepared matches Err(e) ==> e@ == AppErrorView::BadRequest("batch size exceeds 100"@),
        prepared matches Ok(batch) ==> event_views(batch.events@) == valid_events(
            user_id,
            req.events@,
        ) && batch.events@.len() + batch.rejected == req.events@.len(),
{
    if req.events.len() > MAX_BATCH {
        return Err(AppError::BadRequest("batch size exceeds 100".to_owned()));
    }
    let ghost reqs = req.events@;
    let mut events: Vec<Event> = Vec::new();
    let mut rejected: usize = 0;
    let mut i: usize = 0;
    while i < req.events.len()
        invariant
            i <= req.events.len(),
            reqs == req.events@,
            event_views(events@) == valid_events(user_id, reqs.take(i as int)),
            events.len() + rejected == i,
        decreases req.events.len() - i,
    {
        assert(reqs.take(i + 1).drop_last() =~= reqs.take(i as int));
        assert(reqs.take(i + 1).last() == reqs[i as int]);
        let ghost before = event_views(events@);
        match prepare_event(user_id, &req.events[i]) {
            Ok(event) => {
                events.push(event);
                assert(event_views(events@) =~= before.push(event_of(user_id, reqs[i as int])));
            },
            Err(_) => {
                rejected = rejected + 1;
            },
        }
        i = i + 1;
    }
    assert(reqs.take(req.events.len() as int) =~= reqs);
    Ok(PreparedBatch { events, rejected })
}

/// The tally of a batch: what was stored counts as accepted; what was
/// refused, and what could not be stored, as rejected.
pub fn batch_response(stored: usize, failed: usize, refused: usize) -> (response: BatchEventResponse)
    requires
        failed + refused <= usize::MAX,
    ensures
        response.accepted == stored,
        response.rejected == failed + refused,
{
    BatchEventResponse { accepted: stored, rejected: failed + refused }
}

} // verus!
