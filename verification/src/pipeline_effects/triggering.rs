//! Whether a pipeline is due, and how its parked task is woken.
//!
//! The events of the data sources are fetched by the caller, and the
//! workflow engine is called by the caller. `maybe_trigger_pipeline` says
//! what to do first; each outcome, handed to the `accept` of the step that
//! asked for it, gives the next step, until the pipeline is triggered, is
//! found not to be due, or the attempt has failed.

pub mod remote;

use crate::pipeline_effects::triggering::remote::{
    heartbeat_failure, instants, is_task_ready, relay_view, send_task_heartbeat,
    send_task_success, success_failure, task_readiness, ProbeOutcome, ProbeOutcomeView,
};
use crate::pipeline_effects::{
    result_view, DataPipeline, DataPipelineView, ProcessingError, ProcessingErrorView,
    TriggerPermitType, TriggerPermitView,
};
use crate::rendering::texts;
use crate::timestamp::Timestamp;
use crate::web_url::{url_parts, UrlParts};
use url::Url;
use vstd::prelude::*;
use vstd::string::*;

verus! {

/// The token of a pipeline's permit, where it has one.
pub open spec fn task_token(pipeline: DataPipelineView) -> Result<Seq<char>, ProcessingErrorView> {
    match pipeline.permit.permit() {
        Some(permit) => Ok(permit.content),
        None => Err(
            ProcessingErrorView::MissingPipelinePermit(
                "Missing pipeline trigger permit for "@ + pipeline.id,
            ),
        ),
    }
}

/// The token on which the task of `data_pipeline` is parked.
pub fn get_task_token(data_pipeline: &DataPipeline) -> (r: Result<String, ProcessingError>)
    ensures
        result_view(r) == task_token(data_pipeline@),
{
    let permit = match &data_pipeline.permit {
        TriggerPermitType::Lenient(permit) => permit,
        TriggerPermitType::Strict(permit) => permit,
    };
    match permit {
        Some(permit) => Ok(permit.content.clone()),
        None => {
            let mut message = "Missing pipeline trigger permit for ".to_owned();
            message.append(data_pipeline.id.as_str());
            Err(ProcessingError::MissingPipelinePermit(message))
        },
    }
}

/// Whether a state machine is listed under the id of `data_pipeline`.
pub fn does_state_machine_exist(data_pipeline: &DataPipeline, sm_names: &Vec<String>) -> (found:
    bool)
    ensures
        found == texts(sm_names@).contains(data_pipeline.id@),
{
    let mut i: usize = 0;
    while i < sm_names.len()
        invariant
            i <= sm_names.len(),
            forall|j: int| 0 <= j < i ==> texts(sm_names@)[j] != data_pipeline.id@,
        decreases sm_names.len() - i,
    {
        if sm_names[i] == data_pipeline.id {
            assert(texts(sm_names@)[i as int] == data_pipeline.id@);
            return true;
        }
        i = i + 1;
    }
    false
}

/// Whether one of the events is as late as `since`, or later.
pub open spec fn has_fresh_event(event_times: Seq<int>, since: int) -> bool {
    exists|i: int| 0 <= i < event_times.len() && event_times[i] >= since
}

/// Whether one of the sources has an event as late as `since`.
pub open spec fn lenient_ready(events: Seq<Seq<int>>, since: int) -> bool {
    exists|k: int| 0 <= k < events.len() && has_fresh_event(#[trigger] events[k], since)
}

/// Whether there are sources and each of them has an event as late as
/// `since`.
pub open spec fn strict_ready(events: Seq<Seq<int>>, since: int) -> bool {
    events.len() > 0 && forall|k: int|
        0 <= k < events.len() ==> has_fresh_event(#[trigger] events[k], since)
}

/// Whether the sources of a pipeline have the new events that its rule asks
/// for, given the latest events of each source in the order of the
/// pipeline's dependencies.
pub open spec fn has_new_source_event(
    permit: TriggerPermitView,
    events: Seq<Seq<int>>,
    since: int,
) -> bool {
    match permit {
        TriggerPermitView::Lenient(_) => lenient_ready(events, since),
        TriggerPermitView::Strict(_) => strict_ready(events, since),
    }
}

/// Whether one of the events is as late as `since`, or later.
pub fn has_fresh(event_times: &Vec<Timestamp>, since: &Timestamp) -> (fresh: bool)
    ensures
        fresh == has_fresh_event(instants(event_times@), since@),
{
    let mut i: usize = 0;
    while i < event_times.len()
        invariant
            i <= event_times.len(),
            forall|j: int| 0 <= j < i ==> instants(event_times@)[j] < since@,
        decreases event_times.len() - i,
    {
        if event_times[i].at_or_after(since) {
            assert(instants(event_times@)[i as int] >= since@);
            return true;
        }
        i = i + 1;
    }
    false
}

/// The latest events of a data source are being fetched.
#[derive(Debug)]
pub struct AwaitingEvents<'a> {
    pipeline: &'a DataPipeline,
    since: Timestamp,
    asked: usize,
    all_fresh: bool,
}

/// What is known while the events of a source are being fetched: the
/// pipeline, the place of the source among its dependencies, and whether
/// each source before it had a fresh event.
#[verifier::ext_equal]
pub ghost struct AwaitingEventsView {
    pub pipeline: DataPipelineView,
    pub asked: nat,
    pub all_fresh: bool,
}

impl<'a> AwaitingEvents<'a> {
    #[verifier::type_invariant]
    spec fn well_formed(self) -> bool {
        &&& self.pipeline.last_success_time == Some(self.since)
        &&& self.asked < self.pipeline.dependency_urls@.len()
    }
}

impl<'a> View for AwaitingEvents<'a> {
    type V = AwaitingEventsView;

    closed spec fn view(&self) -> AwaitingEventsView {
        AwaitingEventsView {
            pipeline: self.pipeline@,
            asked: self.asked as nat,
            all_fresh: self.all_fresh,
        }
    }
}

/// The workflow engine is being probed for the task of a pipeline.
#[derive(Debug)]
pub struct AwaitingProbe<'a> {
    pipeline: &'a DataPipeline,
}

impl<'a> View for AwaitingProbe<'a> {
    type V = DataPipelineView;

    closed spec fn view(&self) -> DataPipelineView {
        self.pipeline@
    }
}

/// A heartbeat is being sent before the task success.
#[derive(Debug)]
pub struct AwaitingHeartbeat {
    token: String,
}

impl View for AwaitingHeartbeat {
    type V = Seq<char>;

    closed spec fn view(&self) -> Seq<char> {
        self.token@
    }
}

/// The task success is being sent.
#[derive(Debug)]
pub struct AwaitingSuccess {}

/// What the caller is to do next.
#[derive(Debug)]
#[allow(inconsistent_fields)]
pub enum TriggerStep<'a> {
    /// Fetch the latest events of the data source at `url`.
    FetchEvents { url: Url, then: AwaitingEvents<'a> },
    /// Probe the task parked on `token` with a heartbeat.
    ProbeReadiness { token: String, then: AwaitingProbe<'a> },
    /// Send a heartbeat to the task parked on `token`.
    SendHeartbeat { token: String, then: AwaitingHeartbeat },
    /// Send task success to the task parked on `token`.
    SendSuccess { token: String, then: AwaitingSuccess },
    /// The pipeline was triggered.
    Triggered,
    /// The pipeline is not due; the text says so for the log.
    NotTriggered(String),
    /// The attempt failed.
    Failed(ProcessingError),
}

#[verifier::ext_equal]
pub ghost enum TriggerStepView {
    FetchEvents { url: UrlParts, then: AwaitingEventsView },
    ProbeReadiness { token: Seq<char>, pipeline: DataPipelineView },
    /// `token` is what the heartbeat is sent on, `next` what the success will
    /// be sent on.
    SendHeartbeat { token: Seq<char>, next: Seq<char> },
    SendSuccess { token: Seq<char> },
    Triggered,
    NotTriggered(Seq<char>),
    Failed(ProcessingErrorView),
}

impl<'a> View for TriggerStep<'a> {
    type V = TriggerStepView;

    open spec fn view(&self) -> TriggerStepView {
        match self {
            TriggerStep::FetchEvents { url, then } => TriggerStepView::FetchEvents {
                url: url_parts(*url),
                then: then@,
            },
            TriggerStep::ProbeReadiness { token, then } => TriggerStepView::ProbeReadiness {
                token: token@,
                pipeline: then@,
            },
            TriggerStep::SendHeartbeat { token, then } => TriggerStepView::SendHeartbeat {
                token: token@,
                next: then@,
            },
            TriggerStep::SendSuccess { token, then } => TriggerStepView::SendSuccess {
                token: token@,
            },
            TriggerStep::Triggered => TriggerStepView::Triggered,
            TriggerStep::NotTriggered(why) => TriggerStepView::NotTriggered(why@),
            TriggerStep::Failed(e) => TriggerStepView::Failed(e@),
        }
    }
}

/// The line for the log of a pipeline that was not triggered.
pub open spec fn not_triggered_message(pipeline: DataPipelineView) -> Seq<char> {
    "Pipeline with id "@ + pipeline.id + " was not triggered."@
}

/// The step that probes the task of a pipeline: it takes the pipeline's
/// token.
pub open spec fn probe_step(pipeline: DataPipelineView) -> TriggerStepView {
    match task_token(pipeline) {
        Ok(token) => TriggerStepView::ProbeReadiness { token, pipeline },
        Err(e) => TriggerStepView::Failed(e),
    }
}

/// The step that starts waking the task of a pipeline: a heartbeat goes
/// first, on the token of the pipeline's permit, and the success will go on
/// the same token.
pub open spec fn trigger_step(pipeline: DataPipelineView) -> TriggerStepView {
    match task_token(pipeline) {
        Ok(token) => TriggerStepView::SendHeartbeat { token, next: token },
        Err(e) => TriggerStepView::Failed(e),
    }
}

/// The step once the sources before place `asked` were looked at: the source
/// at that place is asked for, if there is one. Past the last source a
/// lenient pipeline is not due, and a strict one is due if it has sources and
/// each had a fresh event.
pub open spec fn events_step(pipeline: DataPipelineView, asked: nat, all_fresh: bool) -> TriggerStepView {
    if asked < pipeline.dependency_urls.len() {
        TriggerStepView::FetchEvents {
            url: pipeline.dependency_urls[asked as int],
            then: AwaitingEventsView { pipeline, asked, all_fresh },
        }
    } else {
        match pipeline.permit {
            TriggerPermitView::Lenient(_) => TriggerStepView::NotTriggered(
                not_triggered_message(pipeline),
            ),
            TriggerPermitView::Strict(_) => if pipeline.dependency_urls.len() > 0 && all_fresh {
                probe_step(pipeline)
            } else {
                TriggerStepView::NotTriggered(not_triggered_message(pipeline))
            },
        }
    }
}

/// The first step for a pipeline: without a last success time there is
/// nothing to compare events with.
pub open spec fn first_step(pipeline: DataPipelineView) -> TriggerStepView {
    match pipeline.last_success_time {
        None => TriggerStepView::Failed(
            ProcessingErrorView::MissingSuccessTime(
                "Last success time missing for pipeline with id "@ + pipeline.id,
            ),
        ),
        Some(_) => events_step(pipeline, 0, true),
    }
}

/// The step after the events of a source came back. A lenient pipeline
/// probes its task as soon as one source has a fresh event; a strict one
/// goes through all its sources.
pub open spec fn step_after_events(
    state: AwaitingEventsView,
    reply: Result<Seq<int>, ProcessingErrorView>,
) -> TriggerStepView {
    match reply {
        Err(e) => TriggerStepView::Failed(e),
        Ok(event_times) => {
            let fresh = has_fresh_event(event_times, state.pipeline.last_success_time->Some_0);
            match state.pipeline.permit {
                TriggerPermitView::Lenient(_) => if fresh {
                    probe_step(state.pipeline)
                } else {
                    events_step(state.pipeline, state.asked + 1, state.all_fresh)
                },
                TriggerPermitView::Strict(_) => events_step(
                    state.pipeline,
                    state.asked + 1,
                    state.all_fresh && fresh,
                ),
            }
        },
    }
}

/// The step after the probe came back: a task that is alive is woken, one
/// that timed out is left alone.
pub open spec fn step_after_probe(
    pipeline: DataPipelineView,
    outcome: ProbeOutcomeView,
) -> TriggerStepView {
    match task_readiness(outcome) {
        Ok(true) => trigger_step(pipeline),
        Ok(false) => TriggerStepView::NotTriggered(not_triggered_message(pipeline)),
        Err(e) => TriggerStepView::Failed(e),
    }
}

/// The step after the heartbeat came back: success is sent only after a
/// heartbeat that got through.
pub open spec fn step_after_heartbeat(
    token: Seq<char>,
    outcome: Result<(), Seq<char>>,
) -> TriggerStepView {
    match outcome {
        Ok(_) => TriggerStepView::SendSuccess { token },
        Err(why) => TriggerStepView::Failed(heartbeat_failure(why)),
    }
}

/// The step after the task success came back.
pub open spec fn step_after_success(outcome: Result<(), Seq<char>>) -> TriggerStepView {
    match outcome {
        Ok(_) => TriggerStepView::Triggered,
        Err(why) => TriggerStepView::Failed(success_failure(why)),
    }
}

/// The events of a source as they came back, with the times as instants.
pub open spec fn events_view(reply: Result<Vec<Timestamp>, ProcessingError>) -> Result<
    Seq<int>,
    ProcessingErrorView,
> {
    match reply {
        Ok(times) => Ok(instants(times@)),
        Err(e) => Err(e@),
    }
}

fn not_triggered(pipeline: &DataPipeline) -> (step: TriggerStep<'_>)
    ensures
        step@ == TriggerStepView::NotTriggered(not_triggered_message(pipeline@)),
{
    let mut message = "Pipeline with id ".to_owned();
    message.append(pipeline.id.as_str());
    message.append(" was not triggered.");
    TriggerStep::NotTriggered(message)
}

fn ask_events(pipeline: &DataPipeline, since: Timestamp, asked: usize, all_fresh: bool) -> (step:
    TriggerStep<'_>)
    requires
        pipeline.last_success_time == Some(since),
        asked <= pipeline.dependency_urls@.len(),
    ensures
        step@ == events_step(pipeline@, asked as nat, all_fresh),
{
    if asked < pipeline.dependency_urls.len() {
        let url = pipeline.dependency_urls[asked].clone();
        let step = TriggerStep::FetchEvents {
            url,
            then: AwaitingEvents { pipeline, since, asked, all_fresh },
        };
        assert(step@ =~~= events_step(pipeline@, asked as nat, all_fresh));
        step
    } else {
        match &pipeline.permit {
            TriggerPermitType::Lenient(_) => not_triggered(pipeline),
            TriggerPermitType::Strict(_) => {
                if pipeline.dependency_urls.len() > 0 && all_fresh {
                    is_pipeline_ready(pipeline)
                } else {
                    not_triggered(pipeline)
                }
            },
        }
    }
}

/// The first step of finding out whether `data_pipeline` can be triggered.
pub fn can_trigger_pipeline(data_pipeline: &DataPipeline) -> (step: TriggerStep<'_>)
    ensures
        step@ == first_step(data_pipeline@),
{
    match &data_pipeline.last_success_time {
        Some(since) => ask_events(data_pipeline, *since, 0, true),
        None => {
            let mut message = "Last success time missing for pipeline with id ".to_owned();
            message.append(data_pipeline.id.as_str());
            TriggerStep::Failed(ProcessingError::MissingSuccessTime(message))
        },
    }
}

/// The step that probes whether the task of `data_pipeline` still waits.
pub fn is_pipeline_ready(data_pipeline: &DataPipeline) -> (step: TriggerStep<'_>)
    ensures
        step@ == probe_step(data_pipeline@),
{
    match get_task_token(data_pipeline) {
        Ok(token) => TriggerStep::ProbeReadiness {
            token,
            then: AwaitingProbe { pipeline: data_pipeline },
        },
        Err(e) => TriggerStep::Failed(e),
    }
}

/// The step that starts waking the task of `data_pipeline`.
pub fn trigger_pipeline(data_pipeline: &DataPipeline) -> (step: TriggerStep<'_>)
    ensures
        step@ == trigger_step(data_pipeline@),
{
    match get_task_token(data_pipeline) {
        Ok(token) => {
            let next = token.clone();
            TriggerStep::SendHeartbeat { token, then: AwaitingHeartbeat { token: next } }
        },
        Err(e) => TriggerStep::Failed(e),
    }
}

/// Starts the attempt to trigger `data_pipeline`: its sources are looked at
/// first, then its task is probed, and only a task that is alive is woken.
pub fn maybe_trigger_pipeline(data_pipeline: &DataPipeline) -> (step: TriggerStep<'_>)
    ensures
        step@ == first_step(data_pipeline@),
{
    can_trigger_pipeline(data_pipeline)
}

impl<'a> AwaitingEvents<'a> {
    /// Takes the latest events of the source that was asked for.
    pub fn accept(self, reply: Result<Vec<Timestamp>, ProcessingError>) -> (step: TriggerStep<'a>)
        ensures
            step@ == step_after_events(self@, events_view(reply)),
    {
        proof {
            use_type_invariant(&self);
        }
        let event_times = match reply {
            Ok(times) => times,
            Err(e) => {
                return TriggerStep::Failed(e);
            },
        };
        let pipeline = self.pipeline;
        assert(pipeline.dependency_urls.len() <= usize::MAX);
        let fresh = has_fresh(&event_times, &self.since);
        match &pipeline.permit {
            TriggerPermitType::Lenient(_) => {
                if fresh {
                    is_pipeline_ready(pipeline)
                } else {
                    ask_events(pipeline, self.since, self.asked + 1, self.all_fresh)
                }
            },
            TriggerPermitType::Strict(_) => ask_events(
                pipeline,
                self.since,
                self.asked + 1,
                self.all_fresh && fresh,
            ),
        }
    }
}

impl<'a> AwaitingProbe<'a> {
    /// Takes the outcome of the probe.
    pub fn accept(self, outcome: ProbeOutcome) -> (step: TriggerStep<'a>)
        ensures
            step@ == step_after_probe(self@, outcome@),
    {
        match is_task_ready(outcome) {
            Ok(true) => trigger_pipeline(self.pipeline),
            Ok(false) => not_triggered(self.pipeline),
            Err(e) => TriggerStep::Failed(e),
        }
    }
}

impl AwaitingHeartbeat {
    /// Takes the outcome of the heartbeat.
    pub fn accept(self, outcome: Result<(), String>) -> (step: TriggerStep<'static>)
        ensures
            step@ == step_after_heartbeat(self@, relay_view(outcome)),
    {
        match send_task_heartbeat(outcome) {
            Ok(_) => TriggerStep::SendSuccess { token: self.token, then: AwaitingSuccess {  } },
            Err(e) => TriggerStep::Failed(e),
        }
    }
}

impl AwaitingSuccess {
    /// Takes the outcome of the task success.
    pub fn accept(self, outcome: Result<(), String>) -> (step: TriggerStep<'static>)
        ensures
            step@ == step_after_success(relay_view(outcome)),
    {
        match send_task_success(outcome) {
            Ok(_) => TriggerStep::Triggered,
            Err(e) => TriggerStep::Failed(e),
        }
    }
}

/// The step that looking at the sources ends in when the events in `events`
/// come back, one source after the other, and at most `questions` sources are
/// asked for.
pub open spec fn settled_step(
    step: TriggerStepView,
    events: Seq<Seq<int>>,
    questions: nat,
) -> TriggerStepView
    decreases questions,
{
    match step {
        TriggerStepView::FetchEvents { url, then } => if questions == 0 || then.asked
            >= events.len() {
            step
        } else {
            settled_step(
                step_after_events(then, Ok(events[then.asked as int])),
                events,
                (questions - 1) as nat,
            )
        },
        _ => step,
    }
}

/// What looking at the sources comes to: the task is probed where the
/// sources have the new events that the pipeline's rule asks for, and the
/// pipeline is not due where they have not.
pub open spec fn verdict_step(pipeline: DataPipelineView, events: Seq<Seq<int>>) -> TriggerStepView {
    if has_new_source_event(pipeline.permit, events, pipeline.last_success_time->Some_0) {
        probe_step(pipeline)
    } else {
        TriggerStepView::NotTriggered(not_triggered_message(pipeline))
    }
}

/// From any source on, the steps end in the verdict on all sources: for a
/// lenient pipeline while no source before had a fresh event, for a strict
/// one while `all_fresh` tells whether each source before had one.
pub proof fn lemma_sources_settle(
    pipeline: DataPipelineView,
    events: Seq<Seq<int>>,
    asked: nat,
    all_fresh: bool,
)
    requires
        pipeline.last_success_time is Some,
        events.len() == pipeline.dependency_urls.len(),
        asked <= events.len(),
        pipeline.permit is Lenient ==> forall|j: int|
            0 <= j < asked ==> !has_fresh_event(
                #[trigger] events[j],
                pipeline.last_success_time->Some_0,
            ),
        pipeline.permit is Strict ==> (all_fresh <==> forall|j: int|
            0 <= j < asked ==> has_fresh_event(
                #[trigger] events[j],
                pipeline.last_success_time->Some_0,
            )),
    ensures
        settled_step(
            events_step(pipeline, asked, all_fresh),
            events,
            (events.len() - asked) as nat,
        ) == verdict_step(pipeline, events),
    decreases events.len() - asked,
{
    let since = pipeline.last_success_time->Some_0;
    let step = events_step(pipeline, asked, all_fresh);
    let questions = (events.len() - asked) as nat;
    if asked < events.len() {
        let then = AwaitingEventsView { pipeline, asked, all_fresh };
        let fresh = has_fresh_event(events[asked as int], since);
        let next = step_after_events(then, Ok(events[asked as int]));
        assert(settled_step(step, events, questions) == settled_step(
            next,
            events,
            (questions - 1) as nat,
        ));
        if pipeline.permit is Lenient {
            if fresh {
                assert(lenient_ready(events, since));
            } else {
                lemma_sources_settle(pipeline, events, asked + 1, all_fresh);
            }
        } else {
            lemma_sources_settle(pipeline, events, asked + 1, all_fresh && fresh);
        }
    }
}

/// Looking at the sources of a pipeline with a last success time ends in the
/// verdict that its rule gives on the latest events of all its sources.
pub proof fn lemma_readiness(pipeline: DataPipelineView, events: Seq<Seq<int>>)
    requires
        pipeline.last_success_time is Some,
        events.len() == pipeline.dependency_urls.len(),
    ensures
        settled_step(first_step(pipeline), events, events.len()) == verdict_step(
            pipeline,
            events,
        ),
{
    lemma_sources_settle(pipeline, events, 0, true);
}

/// A lenient pipeline asks for no further source once one has a fresh event:
/// the next step probes the task, or fails for want of a permit.
pub proof fn lemma_lenient_short_circuit(state: AwaitingEventsView, event_times: Seq<int>)
    requires
        state.pipeline.permit is Lenient,
        has_fresh_event(event_times, state.pipeline.last_success_time->Some_0),
    ensures
        step_after_events(state, Ok(event_times)) == probe_step(state.pipeline),
        !(step_after_events(state, Ok(event_times)) is FetchEvents),
{
}

/// A strict pipeline goes through all its sources: whatever the events of a
/// source, the source after it is asked for.
pub proof fn lemma_strict_asks_every_source(state: AwaitingEventsView, event_times: Seq<int>)
    requires
        state.pipeline.permit is Strict,
        state.asked + 1 < state.pipeline.dependency_urls.len(),
    ensures
        step_after_events(state, Ok(event_times)) is FetchEvents,
{
}

/// The heartbeat goes first: waking a task never starts with the success, and
/// after a heartbeat that did not get through no success is sent.
pub proof fn lemma_heartbeat_goes_first(
    pipeline: DataPipelineView,
    token: Seq<char>,
    why: Seq<char>,
)
    ensures
        trigger_step(pipeline) is SendHeartbeat || trigger_step(pipeline) is Failed,
        step_after_heartbeat(token, Err(why)) is Failed,
        step_after_heartbeat(token, Ok(())) == (TriggerStepView::SendSuccess { token }),
{
}

/// Waking the task of a pipeline with a permit runs on the permit's token:
/// the heartbeat is sent on it, and after a heartbeat that got through the
/// success is sent on it. What the engine answers to the success is the
/// outcome.
pub proof fn lemma_relay_runs_on_the_permit(
    pipeline: DataPipelineView,
    success: Result<(), Seq<char>>,
)
    requires
        pipeline.permit.permit() is Some,
    ensures
        ({
            let token = pipeline.permit.permit()->Some_0.content;
            &&& trigger_step(pipeline) == (TriggerStepView::SendHeartbeat { token, next: token })
            &&& step_after_heartbeat(token, Ok(())) == (TriggerStepView::SendSuccess { token })
            &&& step_after_success(success) == match success {
                Ok(_) => TriggerStepView::Triggered,
                Err(why) => TriggerStepView::Failed(
                    ProcessingErrorView::RelayTaskSuccessError(why),
                ),
            }
        }),
{
}

/// One more source with a fresh event keeps a strict pipeline due, wherever
/// among the sources it stands.
pub proof fn lemma_strict_stays_ready(
    events: Seq<Seq<int>>,
    since: int,
    at: int,
    more: Seq<int>,
)
    requires
        0 <= at <= events.len(),
        strict_ready(events, since),
        has_fresh_event(more, since),
    ensures
        strict_ready(events.insert(at, more), since),
{
    let grown = events.insert(at, more);
    assert forall|k: int| 0 <= k < grown.len() implies has_fresh_event(
        #[trigger] grown[k],
        since,
    ) by {
        if k < at {
            assert(grown[k] == events[k]);
        } else if k > at {
            assert(grown[k] == events[k - 1]);
        }
    }
}

/// A strict pipeline needs each of its sources: with one source that lacks a
/// fresh event it is not due, and so it is no longer due once the events of
/// any one source are replaced by events that are all too old.
pub proof fn lemma_strict_needs_each_source(
    events: Seq<Seq<int>>,
    since: int,
    at: int,
    stale: Seq<int>,
)
    requires
        0 <= at < events.len(),
        !has_fresh_event(stale, since),
    ensures
        !has_fresh_event(events[at], since) ==> !strict_ready(events, since),
        !strict_ready(events.update(at, stale), since),
        !strict_ready(Seq::empty(), since),
{
    assert(events.update(at, stale)[at] == stale);
}

} // verus!
