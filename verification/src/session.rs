//! The steps of a request that needs the cluster.
//!
//! A [`Job`] names the connection, the statement and how to answer. A session
//! that is open already is used as it is. Otherwise one is connected, its keyspace
//! is selected, and it is kept for later requests. Then the statement is run. Each
//! step asks for one [`Action`]; what came of it is the [`Event`] that leads on.
use crate::answers::{answer_from, answered, result_view};
use crate::commands::{Query, QueryView};
use crate::cache::SessionCache;
use crate::conn::{copy_nodes, string_views, ConnKey, ConnView};
use crate::json::codec::{encoded, written};
use crate::json::JsonView;
use crate::reply::{reply_json, reply_text, respond, Failure, FailureView};
use crate::rows::{optional_result, ResultSet, ResultView};
use vstd::prelude::*;
use vstd::string::*;

verus! {

/// A statement to run on a connection.
#[derive(Debug, PartialEq)]
pub struct Job {
    pub conn: ConnKey,
    pub query: Query,
}

/// The view of a [`Job`].
#[verifier::ext_equal]
pub struct JobView {
    pub conn: ConnView,
    pub query: QueryView,
}

impl View for Job {
    type V = JobView;

    open spec fn view(&self) -> JobView {
        JobView { conn: self.conn@, query: self.query@ }
    }
}

/// How far a request has come.
#[derive(Clone, Copy, Debug, PartialEq, Eq, Structural)]
pub enum Phase {
    /// A session is being connected.
    Connecting,
    /// The new session is selecting its keyspace.
    Selecting,
    /// The new session is being kept.
    Storing,
    /// The statement is being run.
    Querying,
}

/// A request that is under way.
#[derive(Debug, PartialEq)]
pub struct Flow {
    pub phase: Phase,
    pub job: Job,
}

/// The view of a [`Flow`].
#[verifier::ext_equal]
pub struct FlowView {
    pub phase: Phase,
    pub job: JobView,
}

impl View for Flow {
    type V = FlowView;

    open spec fn view(&self) -> FlowView {
        FlowView { phase: self.phase, job: self.job@ }
    }
}

/// What is to be done next.
#[derive(Debug, PartialEq)]
pub enum Action {
    /// Connect to the contact points, with user and password where given.
    Connect { nodes: Vec<String>, credentials: Option<(String, String)> },
    /// Select the keyspace on the new session.
    UseKeyspace(String),
    /// Keep the new session for the request's connection, by [`keep`].
    Store,
    /// Run the statement on the session.
    Run(String),
}

/// The view of an [`Action`].
#[verifier::ext_equal]
pub enum ActionView {
    Connect { nodes: Seq<Seq<char>>, credentials: Option<(Seq<char>, Seq<char>)> },
    UseKeyspace(Seq<char>),
    Store,
    Run(Seq<char>),
}

impl View for Action {
    type V = ActionView;

    open spec fn view(&self) -> ActionView {
        match self {
            Action::Connect { nodes, credentials } => ActionView::Connect {
                nodes: string_views(nodes@),
                credentials: match credentials {
                    Some(pair) => Some((pair.0@, pair.1@)),
                    None => None,
                },
            },
            Action::UseKeyspace(keyspace) => ActionView::UseKeyspace(keyspace@),
            Action::Store => ActionView::Store,
            Action::Run(cql) => ActionView::Run(cql@),
        }
    }
}

/// What came of an action.
#[derive(Debug, PartialEq)]
pub enum Event {
    /// It was carried out. A statement with a result gave these rows.
    Succeeded(Option<ResultSet>),
    /// It failed, for this reason.
    Failed(String),
}

/// The view of an [`Event`].
pub enum EventView {
    Succeeded(Option<ResultView>),
    Failed(Seq<char>),
}

impl View for Event {
    type V = EventView;

    open spec fn view(&self) -> EventView {
        match self {
            Event::Succeeded(result) => EventView::Succeeded(optional_result(*result)),
            Event::Failed(cause) => EventView::Failed(cause@),
        }
    }
}

/// Where a request stands after a step: under way, or answered.
#[derive(Debug, PartialEq)]
pub enum Progress {
    Next(Flow, Action),
    Reply(String),
}

/// The view of a [`Progress`].
pub enum ProgressView {
    Next(FlowView, ActionView),
    Reply(Seq<char>),
}

impl View for Progress {
    type V = ProgressView;

    open spec fn view(&self) -> ProgressView {
        match self {
            Progress::Next(flow, action) => ProgressView::Next(flow@, action@),
            Progress::Reply(text) => ProgressView::Reply(text@),
        }
    }
}

// ── the steps ───────────────────────────────────────────────────────────────

/// The credentials of a connection: user and password where one of them is given.
pub open spec fn credentials_of(conn: ConnView) -> Option<(Seq<char>, Seq<char>)> {
    if conn.username.len() > 0 || conn.password.len() > 0 {
        Some((conn.username, conn.password))
    } else {
        None
    }
}

/// What a phase asks for.
pub open spec fn action_of(flow: FlowView) -> ActionView {
    match flow.phase {
        Phase::Connecting => ActionView::Connect {
            nodes: flow.job.conn.nodes,
            credentials: credentials_of(flow.job.conn),
        },
        Phase::Selecting => ActionView::UseKeyspace(flow.job.conn.keyspace),
        Phase::Storing => ActionView::Store,
        Phase::Querying => ActionView::Run(flow.job.query.cql),
    }
}

/// The request in the phase, with what the phase asks for.
pub open spec fn enter(phase: Phase, job: JobView) -> ProgressView {
    ProgressView::Next(FlowView { phase, job }, action_of(FlowView { phase, job }))
}

/// The request answered from the outcome of its statement.
pub open spec fn finished(
    job: JobView,
    outcome: Result<Option<ResultView>, FailureView>,
) -> ProgressView {
    ProgressView::Reply(reply_text(answered(job.query.answer, outcome)))
}

/// How a request begins.
pub open spec fn begun(job: JobView, cached: bool) -> ProgressView {
    if cached {
        enter(Phase::Querying, job)
    } else {
        enter(Phase::Connecting, job)
    }
}

/// The outcome that ends a request: what its statement gave, or why a step failed.
/// `None` where the request goes on.
pub open spec fn conclusion(flow: FlowView, event: EventView) -> Option<
    Result<Option<ResultView>, FailureView>,
> {
    match (flow.phase, event) {
        (Phase::Connecting, EventView::Failed(cause)) => Some(Err(FailureView::Connect(cause))),
        (Phase::Selecting, EventView::Failed(cause)) => Some(
            Err(FailureView::UseKeyspace { keyspace: flow.job.conn.keyspace, cause }),
        ),
        (Phase::Querying, EventView::Succeeded(result)) => Some(Ok(result)),
        (Phase::Querying, EventView::Failed(cause)) => Some(Err(FailureView::Driver(cause))),
        _ => None,
    }
}

/// How a request goes on.
pub open spec fn advanced(flow: FlowView, event: EventView) -> ProgressView {
    match conclusion(flow, event) {
        Some(outcome) => finished(flow.job, outcome),
        None => match flow.phase {
            Phase::Connecting => if flow.job.conn.keyspace.len() > 0 {
                enter(Phase::Selecting, flow.job)
            } else {
                enter(Phase::Storing, flow.job)
            },
            Phase::Selecting => enter(Phase::Storing, flow.job),
            _ => enter(Phase::Querying, flow.job),
        },
    }
}

/// The request in the phase, with what the phase asks for.
fn enter_phase(phase: Phase, job: Job) -> (progress: Progress)
    ensures
        progress@ == enter(phase, job@),
{
    let action: Action = match phase {
        Phase::Connecting => {
            let conn: &ConnKey = &job.conn;
            let named: bool = !conn.username.as_str().is_empty() || !conn.password.as_str().is_empty();
            Action::Connect {
                nodes: copy_nodes(&conn.nodes),
                credentials: if named {
                    Some((conn.username.clone(), conn.password.clone()))
                } else {
                    None
                },
            }
        },
        Phase::Selecting => Action::UseKeyspace(job.conn.keyspace.clone()),
        Phase::Storing => Action::Store,
        Phase::Querying => Action::Run(job.query.cql.clone()),
    };
    Progress::Next(Flow { phase, job }, action)
}

/// Answers the request from the outcome of its statement.
fn finish(job: Job, outcome: Result<Option<ResultSet>, Failure>) -> (progress: Progress)
    ensures
        progress@ == finished(job@, result_view(outcome)),
        progress@ matches ProgressView::Reply(text) && written(
            reply_json(answered(job@.query.answer, result_view(outcome))),
            text,
        ),
{
    Progress::Reply(respond(answer_from(job.query.answer, outcome)))
}

/// Begins a request. `cached` tells whether a session is open for its connection.
pub fn begin(job: Job, cached: bool) -> (progress: Progress)
    ensures
        progress@ == begun(job@, cached),
{
    if cached {
        enter_phase(Phase::Querying, job)
    } else {
        enter_phase(Phase::Connecting, job)
    }
}

/// Begins a request. Its session is the one that is kept for its connection, if
/// there is one.
pub fn begin_with<S>(job: Job, cache: &SessionCache<S>) -> (progress: Progress)
    ensures
        progress@ == begun(job@, cache@.contains_key(job.conn@)),
{
    let cached: bool = match cache.get(&job.conn) {
        Some(_) => true,
        None => false,
    };
    begin(job, cached)
}

/// Keeps the new session of a request for the request's connection.
pub fn keep<S>(flow: &Flow, cache: &mut SessionCache<S>, session: S)
    ensures
        final(cache)@ == old(cache)@.insert(flow.job.conn@, session),
{
    cache.insert(flow.job.conn.clone(), session);
}

/// Takes a request on, by what came of the action that it asked for.
pub fn advance(flow: Flow, event: Event) -> (progress: Progress)
    ensures
        progress@ == advanced(flow@, event@),
        conclusion(flow@, event@) matches Some(outcome) ==> progress@ matches ProgressView::Reply(text)
            && written(reply_json(answered(flow@.job.query.answer, outcome)), text),
        conclusion(flow@, event@) is None ==> progress@ is Next,
{
    let Flow { phase, job } = flow;
    match phase {
        Phase::Connecting => match event {
            Event::Succeeded(_) => if job.conn.keyspace.as_str().is_empty() {
                enter_phase(Phase::Storing, job)
            } else {
                enter_phase(Phase::Selecting, job)
            },
            Event::Failed(cause) => finish(job, Err(Failure::Connect(cause))),
        },
        Phase::Selecting => match event {
            Event::Succeeded(_) => enter_phase(Phase::Storing, job),
            Event::Failed(cause) => {
                let keyspace: String = job.conn.keyspace.clone();
                finish(job, Err(Failure::UseKeyspace { keyspace, cause }))
            },
        },
        Phase::Storing => enter_phase(Phase::Querying, job),
        Phase::Querying => match event {
            Event::Succeeded(result) => finish(job, Ok(result)),
            Event::Failed(cause) => finish(job, Err(Failure::Driver(cause))),
        },
    }
}

// ── laws ────────────────────────────────────────────────────────────────────

/// The actions that a request asks for when these events come one after the other.
pub open spec fn actions(progress: ProgressView, events: Seq<EventView>) -> Seq<ActionView>
    decreases events.len(),
{
    match progress {
        ProgressView::Next(flow, action) => if events.len() == 0 {
            seq![action]
        } else {
            seq![action] + actions(advanced(flow, events[0]), events.drop_first())
        },
        ProgressView::Reply(_) => seq![],
    }
}

/// The reply that a request has given after these events.
pub open spec fn reply_after(progress: ProgressView, events: Seq<EventView>) -> Option<Seq<char>>
    decreases events.len(),
{
    match progress {
        ProgressView::Next(flow, _) => if events.len() == 0 {
            None
        } else {
            reply_after(advanced(flow, events[0]), events.drop_first())
        },
        ProgressView::Reply(text) => Some(text),
    }
}

/// The actions that lead from no session to an answer: connect, select the
/// keyspace where there is one, keep the session, run the statement.
pub open spec fn opening_actions(job: JobView) -> Seq<ActionView> {
    let connect = action_of(FlowView { phase: Phase::Connecting, job });
    if job.conn.keyspace.len() > 0 {
        seq![
            connect,
            ActionView::UseKeyspace(job.conn.keyspace),
            ActionView::Store,
            ActionView::Run(job.query.cql),
        ]
    } else {
        seq![connect, ActionView::Store, ActionView::Run(job.query.cql)]
    }
}

/// A session that is open is used as it is: the statement is the only action, and
/// what comes of it is answered.
pub proof fn law_open_session_is_used(job: JobView, events: Seq<EventView>)
    requires
        events.len() > 0,
    ensures
        actions(begun(job, true), events) == seq![ActionView::Run(job.query.cql)],
        reply_after(begun(job, true), events) == Some(
            reply_text(
                answered(
                    job.query.answer,
                    match events[0] {
                        EventView::Succeeded(result) => Ok(result),
                        EventView::Failed(cause) => Err(FailureView::Driver(cause)),
                    },
                ),
            ),
        ),
{
    reveal_with_fuel(actions, 2);
    reveal_with_fuel(reply_after, 2);
    assert(actions(begun(job, true), events) =~= seq![ActionView::Run(job.query.cql)]);
}

/// Without an open session the actions come in one order only, whatever happens: a
/// request that stops early has done the first of them. So the keyspace is selected
/// before the session is kept, and the statement runs last.
pub proof fn law_session_is_opened_in_order(job: JobView, events: Seq<EventView>)
    ensures
        actions(begun(job, false), events).len() <= opening_actions(job).len(),
        actions(begun(job, false), events) == opening_actions(job).take(
            actions(begun(job, false), events).len() as int,
        ),
{
    reveal_with_fuel(actions, 5);
    let all = opening_actions(job);
    let taken = actions(begun(job, false), events);
    assert(taken =~= all.take(taken.len() as int));
}

/// Where every step succeeds, all actions are taken, and the reply is made from
/// what the statement gave.
pub proof fn law_undisturbed_request_is_answered(job: JobView, events: Seq<EventView>)
    requires
        events.len() == opening_actions(job).len(),
        forall|i: int| 0 <= i < events.len() ==> (#[trigger] events[i]) is Succeeded,
    ensures
        actions(begun(job, false), events) == opening_actions(job),
        reply_after(begun(job, false), events) == Some(
            reply_text(
                answered(
                    job.query.answer,
                    Ok(events.last()->Succeeded_0),
                ),
            ),
        ),
{
    reveal_with_fuel(actions, 5);
    reveal_with_fuel(reply_after, 5);
    assert(events[0] is Succeeded && events[1] is Succeeded && events[2] is Succeeded);
    assert(events.drop_first().drop_first()[0] == events[2]);
    if job.conn.keyspace.len() > 0 {
        assert(events[3] is Succeeded);
        assert(events.drop_first().drop_first().drop_first()[0] == events[3]);
    }
    assert(actions(begun(job, false), events) =~= opening_actions(job));
}

/// A request whose connection fails does nothing more: no session is kept, no
/// statement runs, and the reply is the connection's failure.
pub proof fn law_failed_connection_ends_the_request(
    job: JobView,
    cause: Seq<char>,
    later: Seq<EventView>,
)
    ensures
        actions(begun(job, false), seq![EventView::Failed(cause)] + later)
            == opening_actions(job).take(1),
        reply_after(begun(job, false), seq![EventView::Failed(cause)] + later) == Some(
            reply_text(answered(job.query.answer, Err(FailureView::Connect(cause)))),
        ),
{
    reveal_with_fuel(actions, 2);
    reveal_with_fuel(reply_after, 2);
    let events = seq![EventView::Failed(cause)] + later;
    assert(events[0] == EventView::Failed(cause));
    assert(actions(begun(job, false), events) =~= opening_actions(job).take(1));
}

/// A request whose keyspace cannot be selected does nothing more: the session is
/// not kept, no statement runs, and the reply names the keyspace.
pub proof fn law_failed_keyspace_ends_the_request(
    job: JobView,
    connected: Option<ResultView>,
    cause: Seq<char>,
    later: Seq<EventView>,
)
    requires
        job.conn.keyspace.len() > 0,
    ensures
        actions(
            begun(job, false),
            seq![EventView::Succeeded(connected), EventView::Failed(cause)] + later,
        ) == opening_actions(job).take(2),
        reply_after(
            begun(job, false),
            seq![EventView::Succeeded(connected), EventView::Failed(cause)] + later,
        ) == Some(
            reply_text(
                answered(
                    job.query.answer,
                    Err(FailureView::UseKeyspace { keyspace: job.conn.keyspace, cause }),
                ),
            ),
        ),
{
    reveal_with_fuel(actions, 3);
    reveal_with_fuel(reply_after, 3);
    let events = seq![EventView::Succeeded(connected), EventView::Failed(cause)] + later;
    assert(events[0] == EventView::Succeeded(connected));
    assert(events.drop_first()[0] == EventView::Failed(cause));
    assert(actions(begun(job, false), events) =~= opening_actions(job).take(2));
}

/// A request keeps its job from step to step, so the session that it has kept is
/// kept for the connection that it was looked up under.
pub proof fn law_request_keeps_its_job(job: JobView, cached: bool, flow: FlowView, event: EventView)
    ensures
        begun(job, cached) matches ProgressView::Next(next, _) && next.job == job,
        advanced(flow, event) matches ProgressView::Next(next, _) ==> next.job == flow.job,
{
}

/// The sessions that are kept after these were kept one after the other.
pub open spec fn kept_all<S>(cache: Map<ConnView, S>, keeps: Seq<(ConnView, S)>) -> Map<ConnView, S>
    decreases keeps.len(),
{
    if keeps.len() == 0 {
        cache
    } else {
        kept_all(cache, keeps.drop_last()).insert(keeps.last().0, keeps.last().1)
    }
}

/// A kept session stays: whatever else is kept later, its connection has a session,
/// and it has this one as long as no other is kept for the same connection.
pub proof fn law_session_stays_kept<S>(
    cache: Map<ConnView, S>,
    conn: ConnView,
    session: S,
    later: Seq<(ConnView, S)>,
)
    ensures
        kept_all(cache.insert(conn, session), later).contains_key(conn),
        (forall|i: int| 0 <= i < later.len() ==> (#[trigger] later[i]).0 != conn) ==> kept_all(
            cache.insert(conn, session),
            later,
        )[conn] == session,
    decreases later.len(),
{
    if later.len() > 0 {
        let earlier = later.drop_last();
        law_session_stays_kept(cache, conn, session, earlier);
        if forall|i: int| 0 <= i < later.len() ==> (#[trigger] later[i]).0 != conn {
            assert forall|i: int| 0 <= i < earlier.len() implies (#[trigger] earlier[i]).0
                != conn by {
                assert(earlier[i] == later[i]);
            }
            assert(later[later.len() - 1].0 != conn);
        }
    }
}

/// Once a session is kept for a connection, every later request with an equal
/// connection asks for its statement and nothing else.
pub proof fn law_kept_session_serves_later_requests<S>(
    cache: Map<ConnView, S>,
    kept: JobView,
    session: S,
    later: Seq<(ConnView, S)>,
    job: JobView,
    events: Seq<EventView>,
)
    requires
        job.conn == kept.conn,
        events.len() > 0,
    ensures
        actions(
            begun(job, kept_all(cache.insert(kept.conn, session), later).contains_key(job.conn)),
            events,
        ) == seq![ActionView::Run(job.query.cql)],
{
    law_session_stays_kept(cache, kept.conn, session, later);
    law_open_session_is_used(job, events);
}

/// A session serves its own connection only: keeping it changes nothing for a request
/// with other contact points, credentials or keyspace.
pub proof fn law_connections_do_not_share_sessions<S>(
    cache: Map<ConnView, S>,
    conn: ConnView,
    session: S,
    job: JobView,
)
    requires
        job.conn != conn,
    ensures
        begun(job, cache.insert(conn, session).contains_key(job.conn)) == begun(
            job,
            cache.contains_key(job.conn),
        ),
        cache.contains_key(job.conn) ==> cache.insert(conn, session)[job.conn] == cache[job.conn],
{
}

/// Every request is answered after at most four events, whatever they are.
pub proof fn law_every_request_is_answered(job: JobView, cached: bool, events: Seq<EventView>)
    requires
        events.len() >= 4,
    ensures
        reply_after(begun(job, cached), events) is Some,
{
    reveal_with_fuel(reply_after, 5);
}

/// A request without an open session first connects to the contact points of its
/// connection. Where there is a user name or a password, both included, it logs in with
/// exactly that user name and that password; it does not log in only where both are
/// empty.
pub proof fn law_sessions_are_opened_with_the_given_credentials(job: JobView)
    ensures
        begun(job, false) matches ProgressView::Next(
            flow,
            ActionView::Connect { nodes, credentials },
        ) && flow.job == job && nodes == job.conn.nodes && (job.conn.username.len() > 0
            || job.conn.password.len() > 0 ==> credentials == Some(
            (job.conn.username, job.conn.password),
        )) && (credentials is None <==> job.conn.username.len() == 0 && job.conn.password.len()
            == 0),
        begun(job, true) matches ProgressView::Next(flow, ActionView::Run(cql)) && flow.job == job
            && cql == job.query.cql,
{
}

/// The steps of a request after it has connected: the keyspace of its connection is
/// selected where there is one, then the session is kept, then its own statement is
/// run, and what that gives is answered.
pub proof fn law_steps_follow_each_other(job: JobView, result: Option<ResultView>, cause: Seq<char>)
    ensures
        ({
            let connecting = FlowView { phase: Phase::Connecting, job };
            let selecting = FlowView { phase: Phase::Selecting, job };
            let storing = FlowView { phase: Phase::Storing, job };
            let querying = FlowView { phase: Phase::Querying, job };
            let done = EventView::Succeeded(result);
            let failed = EventView::Failed(cause);
            &&& begun(job, false) matches ProgressView::Next(flow, _) && flow == connecting
            &&& begun(job, true) == ProgressView::Next(querying, ActionView::Run(job.query.cql))
            &&& job.conn.keyspace.len() > 0 ==> advanced(connecting, done) == ProgressView::Next(
                selecting,
                ActionView::UseKeyspace(job.conn.keyspace),
            )
            &&& job.conn.keyspace.len() == 0 ==> advanced(connecting, done) == ProgressView::Next(
                storing,
                ActionView::Store,
            )
            &&& advanced(selecting, done) == ProgressView::Next(storing, ActionView::Store)
            &&& advanced(storing, done) == ProgressView::Next(
                querying,
                ActionView::Run(job.query.cql),
            )
            &&& advanced(storing, failed) == ProgressView::Next(
                querying,
                ActionView::Run(job.query.cql),
            )
            &&& advanced(querying, done) == ProgressView::Reply(
                encoded(reply_json(answered(job.query.answer, Ok(result)))),
            )
        }),
{
}

/// A step that fails ends the request: the reply tells which step it was, and passes on
/// the cause. Only the question whether the cluster is alive is answered all the same.
pub proof fn law_failed_steps_are_told(job: JobView, cause: Seq<char>)
    ensures
        ({
            let failed = EventView::Failed(cause);
            let told = |message: Seq<char>| ProgressView::Reply(
                encoded(JsonView::Object(seq![("error"@, JsonView::String(message))])),
            );
            let connect = advanced(FlowView { phase: Phase::Connecting, job }, failed);
            let select = advanced(FlowView { phase: Phase::Selecting, job }, failed);
            let query = advanced(FlowView { phase: Phase::Querying, job }, failed);
            if job.query.answer is Alive {
                let down = ProgressView::Reply(
                    encoded(JsonView::Object(seq![("value"@, JsonView::Bool(false))])),
                );
                connect == down && select == down && query == down
            } else {
                &&& connect == told("connect: "@ + cause)
                &&& select == told("use keyspace "@ + job.conn.keyspace + ": "@ + cause)
                &&& query == told(cause)
            }
        }),
{
}

/// Jobs, requests under way, actions, events and progress are seen with all that they
/// hold.
pub proof fn law_steps_are_seen_whole(
    job: Job,
    phase: Phase,
    nodes: Vec<String>,
    user: String,
    password: String,
    result: Option<ResultSet>,
    flow: Flow,
    action: Action,
)
    ensures
        job@.conn == job.conn@ && job@.query == job.query@,
        job.query@.cql == job.query.cql@ && job.query@.answer == job.query.answer,
        (Flow { phase, job })@ == (FlowView { phase, job: job@ }),
        (Action::Connect { nodes, credentials: Some((user, password)) })@ == (ActionView::Connect {
            nodes: string_views(nodes@),
            credentials: Some((user@, password@)),
        }),
        (Action::Connect { nodes, credentials: None })@ == (ActionView::Connect {
            nodes: string_views(nodes@),
            credentials: None,
        }),
        Action::UseKeyspace(user)@ == ActionView::UseKeyspace(user@),
        Action::Store@ == ActionView::Store,
        Action::Run(user)@ == ActionView::Run(user@),
        Event::Succeeded(result)@ == EventView::Succeeded(
            match result {
                Some(set) => Some(set@),
                None => None,
            },
        ),
        Event::Failed(user)@ == EventView::Failed(user@),
        Progress::Next(flow, action)@ == ProgressView::Next(flow@, action@),
        Progress::Reply(user)@ == ProgressView::Reply(user@),
{
}

}
