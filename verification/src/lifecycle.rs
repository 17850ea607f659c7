//! Starting and stopping a workload, one decision at a time.
//!
//! A request is a short conversation with the cluster and the template
//! directory. This module holds the decisions: `run` and `shutdown` open a
//! request and say what to ask first, and `advance` takes each answer and
//! says what to do next, until it says `Finish`. Asking is the caller's
//! part.

use crate::error::{Upstream, ZeusError, ZeusErrorView};
use crate::pod_templates::{
    failure_text, get_template, is_child_of, lemma_template_file_inside, sanitize_name, sanitized,
    template_failure, template_file, template_file_of, template_of, Reading, ReadingView,
};
use vstd::prelude::*;

verus! {

/// How a request that did not fail ended.
#[derive(Clone, Copy, Debug, PartialEq, Eq, Structural)]
pub enum Outcome {
    /// The workload already was as requested: nothing was done.
    AlreadyInDesiredState,
    /// The workload was created, or deleted.
    Transitioned,
}

/// Where a request stands.
#[derive(Debug, PartialEq, Eq)]
pub enum Lifecycle {
    /// The cluster was asked whether the instance exists.
    Checking { starting: bool, name: String },
    /// The template's file is being read; `name` is the requested name.
    Loading { name: String },
    /// The cluster was asked to create the instance.
    Creating,
    /// The cluster was asked to delete the instance.
    Deleting,
    /// The request is over.
    Done,
}

/// What the caller has to do next.
#[derive(Debug, PartialEq, Eq)]
pub enum Action {
    /// Get the instance of this name from the cluster, by name.
    Lookup { name: String },
    /// Read the file at this path.
    ReadTemplate { path: String },
    /// Create an instance from this manifest, with default parameters.
    Create { manifest: String },
    /// Delete the instance of this name.
    Delete { name: String },
    /// Answer the request.
    Finish { result: Result<Outcome, ZeusError> },
}

/// The cluster's answer to a lookup by name.
#[derive(Debug, PartialEq, Eq)]
pub enum Lookup {
    /// The instance is there.
    Found,
    /// The cluster knows no instance of this name.
    Absent,
    /// The cluster could not say, for this reason.
    Failed(String),
}

/// What came back from the last action.
#[derive(Debug, PartialEq, Eq)]
pub enum Event {
    /// The cluster's answer to `Lookup`.
    Looked(Lookup),
    /// What came of reading the file of `ReadTemplate`.
    Read(Reading),
    /// The cluster's answer to `Create` or `Delete`: done, or the reason
    /// why not.
    Replied(Result<(), String>),
}

/// A `Lifecycle` with its names as plain sequences of characters.
pub enum LifecycleView {
    Checking { starting: bool, name: Seq<char> },
    Loading { name: Seq<char> },
    Creating,
    Deleting,
    Done,
}

/// An `Action` with its texts as plain sequences of characters.
pub enum ActionView {
    Lookup { name: Seq<char> },
    ReadTemplate { path: Seq<char> },
    Create { manifest: Seq<char> },
    Delete { name: Seq<char> },
    Finish { result: Result<Outcome, ZeusErrorView> },
}

/// A `Lookup` with its reason as a plain sequence of characters.
pub enum LookupView {
    Found,
    Absent,
    Failed(Seq<char>),
}

impl View for Lookup {
    type V = LookupView;

    open spec fn view(&self) -> LookupView {
        match self {
            Lookup::Found => LookupView::Found,
            Lookup::Absent => LookupView::Absent,
            Lookup::Failed(reason) => LookupView::Failed(reason@),
        }
    }
}

/// An `Event` with its texts as plain sequences of characters.
pub enum EventView {
    Looked(LookupView),
    Read(ReadingView),
    Replied(Result<(), Seq<char>>),
}

impl View for Lifecycle {
    type V = LifecycleView;

    open spec fn view(&self) -> LifecycleView {
        match self {
            Lifecycle::Checking { starting, name } => LifecycleView::Checking {
                starting: *starting,
                name: name@,
            },
            Lifecycle::Loading { name } => LifecycleView::Loading { name: name@ },
            Lifecycle::Creating => LifecycleView::Creating,
            Lifecycle::Deleting => LifecycleView::Deleting,
            Lifecycle::Done => LifecycleView::Done,
        }
    }
}

impl View for Action {
    type V = ActionView;

    open spec fn view(&self) -> ActionView {
        match self {
            Action::Lookup { name } => ActionView::Lookup { name: name@ },
            Action::ReadTemplate { path } => ActionView::ReadTemplate { path: path@ },
            Action::Create { manifest } => ActionView::Create { manifest: manifest@ },
            Action::Delete { name } => ActionView::Delete { name: name@ },
            Action::Finish { result } => ActionView::Finish {
                result: match result {
                    Ok(outcome) => Ok(*outcome),
                    Err(e) => Err(e@),
                },
            },
        }
    }
}

/// An answer of the cluster with its reason as a plain sequence of
/// characters.
pub open spec fn answer_view(answer: Result<(), String>) -> Result<(), Seq<char>> {
    match answer {
        Ok(_) => Ok(()),
        Err(reason) => Err(reason@),
    }
}

impl View for Event {
    type V = EventView;

    open spec fn view(&self) -> EventView {
        match self {
            Event::Looked(answer) => EventView::Looked(answer@),
            Event::Read(content) => EventView::Read(content@),
            Event::Replied(answer) => EventView::Replied(answer_view(*answer)),
        }
    }
}

/// The text of the failure for an answer that was not asked for.
pub open spec fn unexpected_text() -> Seq<char> {
    "Unexpected event"@
}

/// A request answered with `result`.
pub open spec fn finished(result: Result<Outcome, ZeusErrorView>) -> (LifecycleView, ActionView) {
    (LifecycleView::Done, ActionView::Finish { result })
}

/// What the cluster's answer to a change comes to: done, or a
/// `ServerError` with the cluster's reason.
pub open spec fn settled(answer: Result<(), Seq<char>>) -> (LifecycleView, ActionView) {
    match answer {
        Ok(_) => finished(Ok(Outcome::Transitioned)),
        Err(reason) => finished(Err(ZeusErrorView::ServerError(reason))),
    }
}

/// The first step of a request to start (`starting`) or to stop `name`:
/// ask the cluster for the instance of that very name.
pub open spec fn opened(starting: bool, name: Seq<char>) -> (LifecycleView, ActionView) {
    (LifecycleView::Checking { starting, name }, ActionView::Lookup { name })
}

/// The next step of a request, given where it stands and what came back.
///
/// A lookup that failed ends the request with a `ServerError` that carries
/// the cluster's reason, and nothing is created or deleted. Starting: an
/// instance that is there ends the request at once; else the template's file
/// is read, if the name can be one, its text is turned into a template, and
/// the cluster is asked to create its manifest. Stopping: an instance that
/// is not there ends the request at once; else the cluster is asked to
/// delete it. An answer that does not fit the state ends the request with a
/// `ServerError`.
pub open spec fn next(state: LifecycleView, event: EventView, dir: Seq<char>) -> (
    LifecycleView,
    ActionView,
) {
    match (state, event) {
        (LifecycleView::Checking { starting, name }, EventView::Looked(answer)) => {
            match answer {
                LookupView::Failed(reason) => finished(Err(ZeusErrorView::ServerError(reason))),
                LookupView::Found => if starting {
                    finished(Ok(Outcome::AlreadyInDesiredState))
                } else {
                    (LifecycleView::Deleting, ActionView::Delete { name })
                },
                LookupView::Absent => if starting {
                    match template_file_of(dir, name) {
                        Some(path) => (
                            LifecycleView::Loading { name },
                            ActionView::ReadTemplate { path },
                        ),
                        None => finished(
                            Err(ZeusErrorView::ClientError(failure_text(sanitized(name)))),
                        ),
                    }
                } else {
                    finished(Ok(Outcome::AlreadyInDesiredState))
                },
            }
        },
        (LifecycleView::Loading { name }, EventView::Read(content)) => {
            match template_of(name, content) {
                Ok(template) => (
                    LifecycleView::Creating,
                    ActionView::Create { manifest: template.manifest },
                ),
                Err(e) => finished(Err(e)),
            }
        },
        (LifecycleView::Creating, EventView::Replied(answer)) => settled(answer),
        (LifecycleView::Deleting, EventView::Replied(answer)) => settled(answer),
        _ => finished(Err(ZeusErrorView::ServerError(unexpected_text()))),
    }
}

/// What a lookup says of the instance: there, not there, or a
/// `ServerError` with the cluster's reason where the cluster could not say.
pub open spec fn existence(answer: LookupView) -> Result<bool, ZeusErrorView> {
    match answer {
        LookupView::Found => Ok(true),
        LookupView::Absent => Ok(false),
        LookupView::Failed(reason) => Err(ZeusErrorView::ServerError(reason)),
    }
}

/// Whether the instance is there, given the cluster's answer to `Lookup`.
/// Only the cluster's word that it knows no such instance counts as
/// absence; a lookup that failed is a failure.
pub fn pod_exists(answer: Lookup) -> (found: Result<bool, ZeusError>)
    ensures
        match found {
            Ok(there) => existence(answer@) == Ok::<bool, ZeusErrorView>(there),
            Err(e) => existence(answer@) == Err::<bool, ZeusErrorView>(e@),
        },
{
    match answer {
        Lookup::Found => Ok(true),
        Lookup::Absent => Ok(false),
        Lookup::Failed(reason) => Err(ZeusError::from_upstream(Upstream::Cluster, reason)),
    }
}

/// Opens a request to start the workload called `name`.
pub fn run(name: String) -> (step: (Lifecycle, Action))
    ensures
        (step.0@, step.1@) == opened(true, name@),
{
    let asked = name.clone();
    (Lifecycle::Checking { starting: true, name }, Action::Lookup { name: asked })
}

/// Opens a request to stop the workload called `name`.
pub fn shutdown(name: String) -> (step: (Lifecycle, Action))
    ensures
        (step.0@, step.1@) == opened(false, name@),
{
    let asked = name.clone();
    (Lifecycle::Checking { starting: false, name }, Action::Lookup { name: asked })
}

/// Ends a request with `result`.
fn finish(result: Result<Outcome, ZeusError>) -> (step: (Lifecycle, Action))
    ensures
        (step.0@, step.1@) == finished(
            match result {
                Ok(outcome) => Ok(outcome),
                Err(e) => Err(e@),
            },
        ),
{
    (Lifecycle::Done, Action::Finish { result })
}

/// Ends a request with the cluster's answer to a change.
fn settle(answer: Result<(), String>) -> (step: (Lifecycle, Action))
    ensures
        (step.0@, step.1@) == settled(answer_view(answer)),
{
    match answer {
        Ok(_) => finish(Ok(Outcome::Transitioned)),
        Err(reason) => finish(Err(ZeusError::from_upstream(Upstream::Cluster, reason))),
    }
}

/// Takes the answer to the last action and says what to do next.
///
/// `dir` is the template directory. The result is the new state and the
/// next action; after `Finish` the state is `Done`.
pub fn advance(state: Lifecycle, event: Event, dir: &str) -> (step: (Lifecycle, Action))
    ensures
        (step.0@, step.1@) == next(state@, event@, dir@),
{
    match (state, event) {
        (Lifecycle::Checking { starting, name }, Event::Looked(answer)) => {
            let there = match pod_exists(answer) {
                Ok(there) => there,
                Err(e) => {
                    return finish(Err(e));
                },
            };
            if starting {
                if there {
                    finish(Ok(Outcome::AlreadyInDesiredState))
                } else {
                    match template_file(dir, name.as_str()) {
                        Some(path) => (Lifecycle::Loading { name }, Action::ReadTemplate { path }),
                        None => {
                            let clean = sanitize_name(name.as_str());
                            finish(Err(ZeusError::ClientError(template_failure(clean.as_str()))))
                        },
                    }
                }
            } else {
                if there {
                    let asked = name.clone();
                    (Lifecycle::Deleting, Action::Delete { name: asked })
                } else {
                    finish(Ok(Outcome::AlreadyInDesiredState))
                }
            }
        },
        (Lifecycle::Loading { name }, Event::Read(content)) => {
            match get_template(name.as_str(), &content) {
                Ok(template) => (Lifecycle::Creating, Action::Create { manifest: template.manifest }),
                Err(e) => finish(Err(e)),
            }
        },
        (Lifecycle::Creating, Event::Replied(answer)) => settle(answer),
        (Lifecycle::Deleting, Event::Replied(answer)) => settle(answer),
        _ => finish(
            Err(ZeusError::from_upstream(Upstream::Cluster, "Unexpected event".to_owned())),
        ),
    }
}

/// The answer that an action gives to the request, where it is `Finish`.
pub open spec fn answer_of(action: ActionView) -> Result<Outcome, ZeusErrorView> {
    match action {
        ActionView::Finish { result } => result,
        _ => Err(ZeusErrorView::ServerError(unexpected_text())),
    }
}

/// A whole request to start `name`, given what the world answers: `found`
/// to the lookup, `content` to the reading of the template and `reply` to
/// the creation, each used only if the request comes to ask. The result is
/// the answer to the request, and whether the cluster created the
/// instance.
pub open spec fn start_run(
    dir: Seq<char>,
    name: Seq<char>,
    found: LookupView,
    content: ReadingView,
    reply: Result<(), Seq<char>>,
) -> (Result<Outcome, ZeusErrorView>, bool) {
    let first = next(opened(true, name).0, EventView::Looked(found), dir);
    match first.1 {
        ActionView::ReadTemplate { path } => {
            let second = next(first.0, EventView::Read(content), dir);
            match second.1 {
                ActionView::Create { manifest } => {
                    let third = next(second.0, EventView::Replied(reply), dir);
                    (answer_of(third.1), reply is Ok)
                },
                other => (answer_of(other), false),
            }
        },
        other => (answer_of(other), false),
    }
}

/// A whole request to stop `name`, given what the world answers: `found`
/// to the lookup and `reply` to the deletion. The result is the answer to
/// the request, and whether the cluster deleted the instance.
pub open spec fn stop_run(
    dir: Seq<char>,
    name: Seq<char>,
    found: LookupView,
    reply: Result<(), Seq<char>>,
) -> (Result<Outcome, ZeusErrorView>, bool) {
    let first = next(opened(false, name).0, EventView::Looked(found), dir);
    match first.1 {
        ActionView::Delete { name } => {
            let second = next(first.0, EventView::Replied(reply), dir);
            (answer_of(second.1), reply is Ok)
        },
        other => (answer_of(other), false),
    }
}

/// What a cluster that holds the instances named in `cluster`, and that
/// can be reached, answers to a lookup of `name`.
pub open spec fn lookup_in(cluster: Set<Seq<char>>, name: Seq<char>) -> LookupView {
    if cluster.contains(name) {
        LookupView::Found
    } else {
        LookupView::Absent
    }
}

/// A request to start `name` on a cluster that holds the instances named in
/// `cluster`: the answer, and the cluster afterwards. A created instance
/// runs under the requested name.
pub open spec fn start_on(
    cluster: Set<Seq<char>>,
    dir: Seq<char>,
    name: Seq<char>,
    content: ReadingView,
    reply: Result<(), Seq<char>>,
) -> (Result<Outcome, ZeusErrorView>, Set<Seq<char>>) {
    let run = start_run(dir, name, lookup_in(cluster, name), content, reply);
    (
        run.0,
        if run.1 {
            cluster.insert(name)
        } else {
            cluster
        },
    )
}

/// A request to stop `name` on a cluster that holds the instances named in
/// `cluster`: the answer, and the cluster afterwards.
pub open spec fn stop_on(
    cluster: Set<Seq<char>>,
    dir: Seq<char>,
    name: Seq<char>,
    reply: Result<(), Seq<char>>,
) -> (Result<Outcome, ZeusErrorView>, Set<Seq<char>>) {
    let run = stop_run(dir, name, lookup_in(cluster, name), reply);
    (
        run.0,
        if run.1 {
            cluster.remove(name)
        } else {
            cluster
        },
    )
}

/// A request to start, from its first answer to its last: a lookup that
/// failed fails it; an instance that is there ends it with nothing done;
/// else the template decides, and then the cluster's reply to the creation.
pub proof fn lemma_start_run(
    dir: Seq<char>,
    name: Seq<char>,
    found: LookupView,
    content: ReadingView,
    reply: Result<(), Seq<char>>,
)
    ensures
        start_run(dir, name, found, content, reply) == (match found {
            LookupView::Failed(reason) => (
                Err::<Outcome, ZeusErrorView>(ZeusErrorView::ServerError(reason)),
                false,
            ),
            LookupView::Found => (
                Ok::<Outcome, ZeusErrorView>(Outcome::AlreadyInDesiredState),
                false,
            ),
            LookupView::Absent => match template_of(name, content) {
                Err(e) => (Err::<Outcome, ZeusErrorView>(e), false),
                Ok(_) => match reply {
                    Ok(_) => (Ok::<Outcome, ZeusErrorView>(Outcome::Transitioned), true),
                    Err(reason) => (
                        Err::<Outcome, ZeusErrorView>(ZeusErrorView::ServerError(reason)),
                        false,
                    ),
                },
            },
        }),
{
}

/// A request to stop, from its first answer to its last: a lookup that
/// failed fails it; an instance that is not there ends it with nothing
/// done; else the cluster's reply to the deletion decides.
pub proof fn lemma_stop_run(
    dir: Seq<char>,
    name: Seq<char>,
    found: LookupView,
    reply: Result<(), Seq<char>>,
)
    ensures
        stop_run(dir, name, found, reply) == (match found {
            LookupView::Failed(reason) => (
                Err::<Outcome, ZeusErrorView>(ZeusErrorView::ServerError(reason)),
                false,
            ),
            LookupView::Absent => (
                Ok::<Outcome, ZeusErrorView>(Outcome::AlreadyInDesiredState),
                false,
            ),
            LookupView::Found => match reply {
                Ok(_) => (Ok::<Outcome, ZeusErrorView>(Outcome::Transitioned), true),
                Err(reason) => (
                    Err::<Outcome, ZeusErrorView>(ZeusErrorView::ServerError(reason)),
                    false,
                ),
            },
        }),
{
}

/// A lookup that failed fails the request, to start or to stop: the answer
/// is a `ServerError` with the cluster's reason, and the cluster is asked
/// for nothing more.
pub proof fn lemma_failed_lookup_fails(
    starting: bool,
    name: Seq<char>,
    reason: Seq<char>,
    dir: Seq<char>,
)
    ensures
        next(opened(starting, name).0, EventView::Looked(LookupView::Failed(reason)), dir)
            == finished(Err(ZeusErrorView::ServerError(reason))),
{
}

/// Starting is idempotent: after a start that did not fail, the cluster
/// holds the instance, and a second start of the same name ends with
/// `AlreadyInDesiredState` and leaves the cluster as it is, whatever the
/// template or the cluster would have said.
pub proof fn lemma_start_twice(
    cluster: Set<Seq<char>>,
    dir: Seq<char>,
    name: Seq<char>,
    content: ReadingView,
    reply: Result<(), Seq<char>>,
    again_content: ReadingView,
    again_reply: Result<(), Seq<char>>,
)
    requires
        start_on(cluster, dir, name, content, reply).0 is Ok,
    ensures
        ({
            let first = start_on(cluster, dir, name, content, reply);
            &&& first.1.contains(name)
            &&& start_on(first.1, dir, name, again_content, again_reply) == (
                Ok::<Outcome, ZeusErrorView>(Outcome::AlreadyInDesiredState),
                first.1,
            )
        }),
{
    lemma_start_run(dir, name, lookup_in(cluster, name), content, reply);
    let first = start_on(cluster, dir, name, content, reply);
    lemma_start_run(dir, name, lookup_in(first.1, name), again_content, again_reply);
}

/// Stopping what is not running is no failure: where the cluster holds no
/// instance of the name, the request ends with `AlreadyInDesiredState` and
/// nothing is deleted.
pub proof fn lemma_stop_absent(
    cluster: Set<Seq<char>>,
    dir: Seq<char>,
    name: Seq<char>,
    reply: Result<(), Seq<char>>,
)
    requires
        !cluster.contains(name),
    ensures
        stop_on(cluster, dir, name, reply) == (
            Ok::<Outcome, ZeusErrorView>(Outcome::AlreadyInDesiredState),
            cluster,
        ),
{
    lemma_stop_run(dir, name, lookup_in(cluster, name), reply);
}

/// Stopping is idempotent: after a stop that did not fail, the cluster
/// holds no instance of the name, and a second stop ends with
/// `AlreadyInDesiredState` and leaves the cluster as it is.
pub proof fn lemma_stop_twice(
    cluster: Set<Seq<char>>,
    dir: Seq<char>,
    name: Seq<char>,
    reply: Result<(), Seq<char>>,
    again_reply: Result<(), Seq<char>>,
)
    requires
        stop_on(cluster, dir, name, reply).0 is Ok,
    ensures
        ({
            let first = stop_on(cluster, dir, name, reply);
            &&& !first.1.contains(name)
            &&& stop_on(first.1, dir, name, again_reply) == (
                Ok::<Outcome, ZeusErrorView>(Outcome::AlreadyInDesiredState),
                first.1,
            )
        }),
{
    lemma_stop_run(dir, name, lookup_in(cluster, name), reply);
    let first = stop_on(cluster, dir, name, reply);
    lemma_stop_absent(first.1, dir, name, again_reply);
}

/// No step of a request asks for a file outside the template directory:
/// every path of a `ReadTemplate` is a file directly inside `dir`.
pub proof fn lemma_reads_stay_inside(state: LifecycleView, event: EventView, dir: Seq<char>)
    ensures
        next(state, event, dir).1 matches ActionView::ReadTemplate { path } ==> is_child_of(
            path,
            dir,
        ),
{
    if let LifecycleView::Checking { starting, name } = state {
        lemma_template_file_inside(dir, name);
    }
}

} // verus!
