//! From an event to the pipelines that it may fire.
//!
//! The catalog is asked by the caller. `gather_data_pipelines` says what to
//! ask first; each answer, handed to the `accept` of the step that asked for
//! it, gives the next step, until the pipelines are there or the resolution
//! has failed.

pub mod remote;

use crate::entities::{EventPayload, EventPayloadView};
use crate::pipeline_effects::{
    instant_view, pipelines_view, result_view, urls_view, DataPipeline, DataPipelineView, PermitView,
    PipelineTriggerPermit, ProcessingError, ProcessingErrorView, TriggerPermitType,
    TriggerPermitView,
};
use crate::rendering::texts;
use crate::timestamp::{iso8601_parse, parse_iso8601, Timestamp};
use crate::web_url::{parse_url, url_parse, url_parts, UrlParts};
use url::Url;
use vstd::prelude::*;
use vstd::string::*;

verus! {

/// A pipeline as the catalog describes it.
#[derive(Clone, Debug)]
pub struct PipelineRestModel {
    pub id: String,
    pub description: String,
    pub last_success_time: Option<String>,
    pub source_dependencies: Vec<String>,
    pub trigger_rule: String,
    pub callback_token: Option<String>,
}

#[verifier::ext_equal]
pub ghost struct PipelineModelView {
    pub id: Seq<char>,
    pub description: Seq<char>,
    pub last_success_time: Option<Seq<char>>,
    pub source_dependencies: Seq<Seq<char>>,
    pub trigger_rule: Seq<char>,
    pub callback_token: Option<Seq<char>>,
}

/// The text of a string that may be missing.
pub open spec fn text_view(text: Option<String>) -> Option<Seq<char>> {
    match text {
        Some(t) => Some(t@),
        None => None,
    }
}

impl View for PipelineRestModel {
    type V = PipelineModelView;

    open spec fn view(&self) -> PipelineModelView {
        PipelineModelView {
            id: self.id@,
            description: self.description@,
            last_success_time: text_view(self.last_success_time),
            source_dependencies: texts(self.source_dependencies@),
            trigger_rule: self.trigger_rule@,
            callback_token: text_view(self.callback_token),
        }
    }
}

/// A data source as the catalog describes it.
#[derive(Clone, Debug)]
pub struct DataSourceRestModel {
    pub id: String,
    pub description: String,
    pub dependent_pipelines: Vec<String>,
}

#[verifier::ext_equal]
pub ghost struct DataSourceModelView {
    pub id: Seq<char>,
    pub description: Seq<char>,
    pub dependent_pipelines: Seq<Seq<char>>,
}

impl View for DataSourceRestModel {
    type V = DataSourceModelView;

    open spec fn view(&self) -> DataSourceModelView {
        DataSourceModelView {
            id: self.id@,
            description: self.description@,
            dependent_pipelines: texts(self.dependent_pipelines@),
        }
    }
}

/// The permit of a described pipeline. A stored token makes a permit that is
/// not expired; the trigger rule decides the kind, and any rule but
/// `LENIENT` and `STRICT` is refused.
pub open spec fn trigger_permit(model: PipelineModelView) -> Result<
    TriggerPermitView,
    ProcessingErrorView,
> {
    let permit = match model.callback_token {
        Some(token) => Some(PermitView { content: token, is_expired: false }),
        None => None,
    };
    if model.trigger_rule == "LENIENT"@ {
        Ok(TriggerPermitView::Lenient(permit))
    } else if model.trigger_rule == "STRICT"@ {
        Ok(TriggerPermitView::Strict(permit))
    } else {
        Err(
            ProcessingErrorView::UnrecognizedTriggerType(
                "Error: Unrecognized trigger permit type."@,
            ),
        )
    }
}

/// The instant of a stored success time, where one is stored.
pub open spec fn stored_success_time(text: Option<Seq<char>>) -> Result<
    Option<int>,
    ProcessingErrorView,
> {
    match text {
        None => Ok(None),
        Some(t) => match iso8601_parse(t) {
            Ok(instant) => Ok(Some(instant)),
            Err(_) => Err(ProcessingErrorView::DatatimeParseFailure("Failed to parse datetime."@)),
        },
    }
}

/// The URL that a text parses to; only meant for texts that parse.
pub open spec fn parsed_url(text: Seq<char>) -> UrlParts {
    match url_parse(text) {
        Ok(url) => url,
        Err(_) => arbitrary(),
    }
}

/// The URLs of the described dependencies, in their order; a single one
/// that does not parse fails them all.
pub open spec fn dependency_urls(strings: Seq<Seq<char>>) -> Result<
    Seq<UrlParts>,
    ProcessingErrorView,
> {
    if forall|i: int| 0 <= i < strings.len() ==> url_parse(#[trigger] strings[i]) is Ok {
        Ok(strings.map_values(|s: Seq<char>| parsed_url(s)))
    } else {
        Err(ProcessingErrorView::UrlParseFailure("Failed to convert strings to urls"@))
    }
}

/// The pipeline that a description stands for. The trigger rule is looked at
/// first, then the success time, then the dependencies.
pub open spec fn data_pipeline_of(model: PipelineModelView) -> Result<
    DataPipelineView,
    ProcessingErrorView,
> {
    match trigger_permit(model) {
        Err(e) => Err(e),
        Ok(permit) => match stored_success_time(model.last_success_time) {
            Err(e) => Err(e),
            Ok(last_success_time) => match dependency_urls(model.source_dependencies) {
                Err(e) => Err(e),
                Ok(dependency_urls) => Ok(
                    DataPipelineView {
                        id: model.id,
                        description: model.description,
                        last_success_time,
                        permit,
                        dependency_urls,
                    },
                ),
            },
        },
    }
}

/// Whether the success time of a pipeline event agrees with the stored one:
/// one must be stored, and it must be the event's.
pub open spec fn agreed_success_time(stored: Option<int>, success_time: int) -> Result<
    (),
    ProcessingErrorView,
> {
    match stored {
        None => Err(
            ProcessingErrorView::MissingSuccessTime(
                "Last success time should have been stored; found nothing."@,
            ),
        ),
        Some(time) => if time != success_time {
            Err(
                ProcessingErrorView::SuccessTimeConflict(
                    "Conflict between provided success time and stored success time."@,
                ),
            )
        } else {
            Ok(())
        },
    }
}

/// Whether the callback token of a pipeline event agrees with the stored
/// permit: one must be stored, and its content must be the token.
pub open spec fn agreed_permit_content(
    permit: TriggerPermitView,
    callback_token: Seq<char>,
) -> Result<(), ProcessingErrorView> {
    match permit.permit() {
        None => Err(
            ProcessingErrorView::MissingPermitContent(
                "Permit content should have been stored; found nothing."@,
            ),
        ),
        Some(stored) => if stored.content != callback_token {
            Err(
                ProcessingErrorView::PermitContentConflict(
                    "Conflict between provided permit content and stored permit content."@,
                ),
            )
        } else {
            Ok(())
        },
    }
}

/// The pipeline that a pipeline event stands for, where the event agrees with
/// what the catalog stores. The success time is looked at first, then the
/// trigger rule, then the permit, then the dependencies.
pub open spec fn gated_pipeline(
    success_time: int,
    callback_token: Seq<char>,
    model: PipelineModelView,
) -> Result<DataPipelineView, ProcessingErrorView> {
    match stored_success_time(model.last_success_time) {
        Err(e) => Err(e),
        Ok(stored) => match agreed_success_time(stored, success_time) {
            Err(e) => Err(e),
            Ok(_) => match trigger_permit(model) {
                Err(e) => Err(e),
                Ok(permit) => match agreed_permit_content(permit, callback_token) {
                    Err(e) => Err(e),
                    Ok(_) => match dependency_urls(model.source_dependencies) {
                        Err(e) => Err(e),
                        Ok(dependency_urls) => Ok(
                            DataPipelineView {
                                id: model.id,
                                description: model.description,
                                last_success_time: stored,
                                permit,
                                dependency_urls,
                            },
                        ),
                    },
                },
            },
        },
    }
}

/// Parses each text as a URL.
pub fn _map_str_to_url(url_strings: &Vec<String>) -> (r: Result<Vec<Url>, ProcessingError>)
    ensures
        match r {
            Ok(urls) => dependency_urls(texts(url_strings@)) == Ok::<
                Seq<UrlParts>,
                ProcessingErrorView,
            >(urls_view(urls@)),
            Err(e) => dependency_urls(texts(url_strings@)) == Err::<
                Seq<UrlParts>,
                ProcessingErrorView,
            >(e@),
        },
{
    let mut urls: Vec<Url> = Vec::new();
    let mut i: usize = 0;
    while i < url_strings.len()
        invariant
            i <= url_strings.len(),
            urls@.len() == i,
            forall|j: int|
                0 <= j < i ==> url_parse(#[trigger] texts(url_strings@)[j]) == Ok::<
                    UrlParts,
                    Seq<char>,
                >(url_parts(urls@[j])),
        decreases url_strings.len() - i,
    {
        match parse_url(url_strings[i].as_str()) {
            Ok(url) => {
                urls.push(url);
            },
            Err(_) => {
                assert(url_parse(texts(url_strings@)[i as int]) is Err);
                return Err(
                    ProcessingError::UrlParseFailure(
                        "Failed to convert strings to urls".to_owned(),
                    ),
                );
            },
        }
        i = i + 1;
    }
    assert(urls_view(urls@) =~= texts(url_strings@).map_values(|s: Seq<char>| parsed_url(s)));
    Ok(urls)
}

/// Parses a stored success time, where one is stored.
pub fn _map_to_offsetdatetime(maybe_dt_str: &Option<String>) -> (r: Result<
    Option<Timestamp>,
    ProcessingError,
>)
    ensures
        match r {
            Ok(time) => stored_success_time(text_view(*maybe_dt_str)) == Ok::<
                Option<int>,
                ProcessingErrorView,
            >(instant_view(time)),
            Err(e) => stored_success_time(text_view(*maybe_dt_str)) == Err::<
                Option<int>,
                ProcessingErrorView,
            >(e@),
        },
{
    match maybe_dt_str {
        Some(dt_str) => match parse_iso8601(dt_str.as_str()) {
            Ok(nanos) => Ok(Some(Timestamp::from_unix_nanos(nanos))),
            Err(_) => Err(
                ProcessingError::DatatimeParseFailure("Failed to parse datetime.".to_owned()),
            ),
        },
        None => Ok(None),
    }
}

/// The permit of a described pipeline.
pub fn _get_trigger_permit(pipeline_model: &PipelineRestModel) -> (r: Result<
    TriggerPermitType,
    ProcessingError,
>)
    ensures
        match r {
            Ok(permit) => trigger_permit(pipeline_model@) == Ok::<
                TriggerPermitView,
                ProcessingErrorView,
            >(permit@),
            Err(e) => trigger_permit(pipeline_model@) == Err::<
                TriggerPermitView,
                ProcessingErrorView,
            >(e@),
        },
{
    let maybe_permit = match &pipeline_model.callback_token {
        Some(token) => Some(PipelineTriggerPermit { content: token.clone(), is_expired: false }),
        None => None,
    };
    if pipeline_model.trigger_rule == "LENIENT".to_owned() {
        Ok(TriggerPermitType::Lenient(maybe_permit))
    } else if pipeline_model.trigger_rule == "STRICT".to_owned() {
        Ok(TriggerPermitType::Strict(maybe_permit))
    } else {
        Err(
            ProcessingError::UnrecognizedTriggerType(
                "Error: Unrecognized trigger permit type.".to_owned(),
            ),
        )
    }
}

/// The pipeline that a description stands for.
pub fn data_pipeline_from_model(pipeline_model: PipelineRestModel) -> (r: Result<
    DataPipeline,
    ProcessingError,
>)
    ensures
        result_view(r) == data_pipeline_of(pipeline_model@),
{
    let permit = match _get_trigger_permit(&pipeline_model) {
        Ok(permit) => permit,
        Err(e) => {
            return Err(e);
        },
    };
    let last_success_time = match _map_to_offsetdatetime(&pipeline_model.last_success_time) {
        Ok(time) => time,
        Err(e) => {
            return Err(e);
        },
    };
    let dependency_urls = match _map_str_to_url(&pipeline_model.source_dependencies) {
        Ok(urls) => urls,
        Err(e) => {
            return Err(e);
        },
    };
    Ok(
        DataPipeline {
            permit,
            id: pipeline_model.id,
            description: pipeline_model.description,
            last_success_time,
            dependency_urls,
        },
    )
}

/// Holds the success time of a pipeline event against the stored one.
pub fn check_success_time(stored: Option<Timestamp>, success_time: Timestamp) -> (r: Result<
    (),
    ProcessingError,
>)
    ensures
        match r {
            Ok(_) => agreed_success_time(instant_view(stored), success_time@) is Ok,
            Err(e) => agreed_success_time(instant_view(stored), success_time@) == Err::<
                (),
                ProcessingErrorView,
            >(e@),
        },
{
    match stored {
        None => Err(
            ProcessingError::MissingSuccessTime(
                "Last success time should have been stored; found nothing.".to_owned(),
            ),
        ),
        Some(fetched_dt) => {
            if fetched_dt == success_time {
                Ok(())
            } else {
                Err(
                    ProcessingError::SuccessTimeConflict(
                        "Conflict between provided success time and stored success time.".to_owned(),
                    ),
                )
            }
        },
    }
}

/// Holds the callback token of a pipeline event against the stored permit.
pub fn check_permit_content(permit: &TriggerPermitType, callback_token: &String) -> (r: Result<
    (),
    ProcessingError,
>)
    ensures
        match r {
            Ok(_) => agreed_permit_content(permit@, callback_token@) is Ok,
            Err(e) => agreed_permit_content(permit@, callback_token@) == Err::<
                (),
                ProcessingErrorView,
            >(e@),
        },
{
    let stored = match permit {
        TriggerPermitType::Lenient(stored) => stored,
        TriggerPermitType::Strict(stored) => stored,
    };
    match stored {
        None => Err(
            ProcessingError::MissingPermitContent(
                "Permit content should have been stored; found nothing.".to_owned(),
            ),
        ),
        Some(fetched_permit) => {
            if *callback_token == fetched_permit.content {
                Ok(())
            } else {
                Err(
                    ProcessingError::PermitContentConflict(
                        "Conflict between provided permit content and stored permit content.".to_owned(),
                    ),
                )
            }
        },
    }
}

/// The pipeline that a pipeline event stands for, where the event agrees with
/// what the catalog stores.
pub fn gate_pipeline_event(
    success_time: Timestamp,
    callback_token: &String,
    pipeline_model: PipelineRestModel,
) -> (r: Result<DataPipeline, ProcessingError>)
    ensures
        result_view(r) == gated_pipeline(
            success_time@,
            callback_token@,
            pipeline_model@,
        ),
{
    let maybe_fetched_dt = match _map_to_offsetdatetime(&pipeline_model.last_success_time) {
        Ok(time) => time,
        Err(e) => {
            return Err(e);
        },
    };
    match check_success_time(maybe_fetched_dt, success_time) {
        Ok(_) => {},
        Err(e) => {
            return Err(e);
        },
    }
    let permit = match _get_trigger_permit(&pipeline_model) {
        Ok(permit) => permit,
        Err(e) => {
            return Err(e);
        },
    };
    match check_permit_content(&permit, callback_token) {
        Ok(_) => {},
        Err(e) => {
            return Err(e);
        },
    }
    let dependency_urls = match _map_str_to_url(&pipeline_model.source_dependencies) {
        Ok(urls) => urls,
        Err(e) => {
            return Err(e);
        },
    };
    Ok(
        DataPipeline {
            permit,
            id: pipeline_model.id,
            description: pipeline_model.description,
            last_success_time: maybe_fetched_dt,
            dependency_urls,
        },
    )
}

/// The catalog is being asked for a data source.
#[derive(Debug)]
pub struct AwaitingDataSource {}

/// The catalog is being asked for a pipeline: for the next dependent of a
/// data source, or for the pipeline that an event names.
#[derive(Debug)]
pub struct AwaitingPipeline {
    ids: Vec<String>,
    collected: Vec<DataPipeline>,
    gate: Option<(Timestamp, String)>,
}

/// What is known while the catalog is being asked for a pipeline. Without a
/// gate, `collected` holds the pipelines of the first ids and the question is
/// for the next id. With a gate, the question is for the pipeline of an
/// event with that success time and callback token.
#[verifier::ext_equal]
pub ghost struct AwaitingPipelineView {
    pub ids: Seq<Seq<char>>,
    pub collected: Seq<DataPipelineView>,
    pub gate: Option<(int, Seq<char>)>,
}

impl AwaitingPipeline {
    #[verifier::type_invariant]
    spec fn well_formed(self) -> bool {
        self.gate is None ==> self.collected@.len() < self.ids@.len()
    }
}

impl View for AwaitingPipeline {
    type V = AwaitingPipelineView;

    closed spec fn view(&self) -> AwaitingPipelineView {
        AwaitingPipelineView {
            ids: texts(self.ids@),
            collected: pipelines_view(self.collected@),
            gate: match self.gate {
                Some((time, token)) => Some((time@, token@)),
                None => None,
            },
        }
    }
}

/// What the caller is to do next.
#[derive(Debug)]
#[allow(inconsistent_fields)]
pub enum GatherStep {
    /// Ask the catalog for the data source `id`.
    FetchDataSource { id: String, then: AwaitingDataSource },
    /// Ask the catalog for the pipeline `id`.
    FetchPipeline { id: String, then: AwaitingPipeline },
    /// The pipelines that the event may fire, in the catalog's order.
    Done(Vec<DataPipeline>),
    /// The event cannot be resolved.
    Failed(ProcessingError),
}

#[verifier::ext_equal]
pub ghost enum GatherStepView {
    FetchDataSource { id: Seq<char> },
    FetchPipeline { id: Seq<char>, then: AwaitingPipelineView },
    Done(Seq<DataPipelineView>),
    Failed(ProcessingErrorView),
}

impl View for GatherStep {
    type V = GatherStepView;

    open spec fn view(&self) -> GatherStepView {
        match self {
            GatherStep::FetchDataSource { id, then } => GatherStepView::FetchDataSource { id: id@ },
            GatherStep::FetchPipeline { id, then } => GatherStepView::FetchPipeline {
                id: id@,
                then: then@,
            },
            GatherStep::Done(pipelines) => GatherStepView::Done(pipelines_view(pipelines@)),
            GatherStep::Failed(e) => GatherStepView::Failed(e@),
        }
    }
}

/// The first step: a source event asks for its data source, a pipeline event
/// for its pipeline.
pub open spec fn first_step(payload: EventPayloadView) -> GatherStepView {
    match payload {
        EventPayloadView::DataSource { id } => GatherStepView::FetchDataSource { id },
        EventPayloadView::DataPipeline {
            id,
            success_time,
            callback_token,
        } => GatherStepView::FetchPipeline {
            id,
            then: AwaitingPipelineView {
                ids: Seq::empty(),
                collected: Seq::empty(),
                gate: Some((success_time, callback_token)),
            },
        },
    }
}

/// The step after the catalog answered for a data source: its first
/// dependent pipeline is asked for, if it has any.
pub open spec fn step_after_data_source(
    reply: Result<DataSourceModelView, ProcessingErrorView>,
) -> GatherStepView {
    match reply {
        Err(e) => GatherStepView::Failed(e),
        Ok(source) => if source.dependent_pipelines.len() == 0 {
            GatherStepView::Done(Seq::empty())
        } else {
            GatherStepView::FetchPipeline {
                id: source.dependent_pipelines[0],
                then: AwaitingPipelineView {
                    ids: source.dependent_pipelines,
                    collected: Seq::empty(),
                    gate: None,
                },
            }
        },
    }
}

/// The step after the catalog answered for a pipeline.
pub open spec fn step_after_pipeline(
    state: AwaitingPipelineView,
    reply: Result<PipelineModelView, ProcessingErrorView>,
) -> GatherStepView {
    match reply {
        Err(e) => GatherStepView::Failed(e),
        Ok(model) => match state.gate {
            Some((success_time, callback_token)) => match gated_pipeline(
                success_time,
                callback_token,
                model,
            ) {
                Ok(pipeline) => GatherStepView::Done(seq![pipeline]),
                Err(e) => GatherStepView::Failed(e),
            },
            None => match data_pipeline_of(model) {
                Err(e) => GatherStepView::Failed(e),
                Ok(pipeline) => {
                    let collected = state.collected.push(pipeline);
                    if collected.len() >= state.ids.len() {
                        GatherStepView::Done(collected)
                    } else {
                        GatherStepView::FetchPipeline {
                            id: state.ids[collected.len() as int],
                            then: AwaitingPipelineView { collected, ..state },
                        }
                    }
                },
            },
        },
    }
}

/// Starts the resolution of an event.
pub fn gather_data_pipelines(event_payload: EventPayload) -> (step: GatherStep)
    ensures
        step@ == first_step(event_payload@),
{
    let ghost payload = event_payload@;
    let step = match event_payload {
        EventPayload::DataSource { id } => GatherStep::FetchDataSource {
            id,
            then: AwaitingDataSource {  },
        },
        EventPayload::DataPipeline { id, success_time, callback_token } => {
            GatherStep::FetchPipeline {
                id,
                then: AwaitingPipeline {
                    ids: Vec::new(),
                    collected: Vec::new(),
                    gate: Some((success_time, callback_token)),
                },
            }
        },
    };
    assert(step@ =~~= first_step(payload));
    step
}

impl AwaitingDataSource {
    /// Takes the catalog's answer for the data source.
    pub fn accept(self, reply: Result<DataSourceRestModel, ProcessingError>) -> (step: GatherStep)
        ensures
            step@ == step_after_data_source(result_view(reply)),
    {
        let ghost asked = result_view(reply);
        let step = match reply {
            Err(e) => GatherStep::Failed(e),
            Ok(source) => {
                let ids = source.dependent_pipelines;
                if ids.len() == 0 {
                    GatherStep::Done(Vec::new())
                } else {
                    let id = ids[0].clone();
                    GatherStep::FetchPipeline {
                        id,
                        then: AwaitingPipeline { ids, collected: Vec::new(), gate: None },
                    }
                }
            },
        };
        assert(step@ =~~= step_after_data_source(asked));
        step
    }
}

impl AwaitingPipeline {
    /// Takes the catalog's answer for the pipeline.
    pub fn accept(self, reply: Result<PipelineRestModel, ProcessingError>) -> (step: GatherStep)
        ensures
            step@ == step_after_pipeline(self@, result_view(reply)),
    {
        proof {
            use_type_invariant(&self);
        }
        let model = match reply {
            Ok(model) => model,
            Err(e) => {
                return GatherStep::Failed(e);
            },
        };
        let ghost state = self@;
        let ghost asked = model@;
        let AwaitingPipeline { ids, collected, gate } = self;
        let step = match gate {
            Some((success_time, callback_token)) => {
                match gate_pipeline_event(success_time, &callback_token, model) {
                    Ok(pipeline) => {
                        let mut pipelines = Vec::new();
                        pipelines.push(pipeline);
                        GatherStep::Done(pipelines)
                    },
                    Err(e) => GatherStep::Failed(e),
                }
            },
            None => {
                match data_pipeline_from_model(model) {
                    Err(e) => GatherStep::Failed(e),
                    Ok(pipeline) => {
                        let mut collected = collected;
                        collected.push(pipeline);
                        if collected.len() >= ids.len() {
                            GatherStep::Done(collected)
                        } else {
                            let id = ids[collected.len()].clone();
                            GatherStep::FetchPipeline {
                                id,
                                then: AwaitingPipeline { ids, collected, gate: None },
                            }
                        }
                    },
                }
            },
        };
        assert(step@ =~~= step_after_pipeline(state, Ok(asked)));
        step
    }
}

/// What resolving `ids` one after the other gives, where `catalog` tells
/// what the catalog answers for each: the pipelines in the order of the ids,
/// or the first failure.
pub open spec fn pipelines_of(
    ids: Seq<Seq<char>>,
    catalog: spec_fn(Seq<char>) -> Result<PipelineModelView, ProcessingErrorView>,
) -> Result<Seq<DataPipelineView>, ProcessingErrorView>
    decreases ids.len(),
{
    if ids.len() == 0 {
        Ok(Seq::empty())
    } else {
        match pipelines_of(ids.drop_last(), catalog) {
            Err(e) => Err(e),
            Ok(first) => match catalog(ids.last()) {
                Err(e) => Err(e),
                Ok(model) => match data_pipeline_of(model) {
                    Err(e) => Err(e),
                    Ok(pipeline) => Ok(first.push(pipeline)),
                },
            },
        }
    }
}

/// The step that a resolution ends in when `catalog` answers each question
/// for a pipeline, and at most `questions` of them are asked.
pub open spec fn last_step(
    step: GatherStepView,
    catalog: spec_fn(Seq<char>) -> Result<PipelineModelView, ProcessingErrorView>,
    questions: nat,
) -> GatherStepView
    decreases questions,
{
    match step {
        GatherStepView::FetchPipeline { id, then } => if questions == 0 {
            step
        } else {
            last_step(step_after_pipeline(then, catalog(id)), catalog, (questions - 1) as nat)
        },
        _ => step,
    }
}

/// The step that stands for an outcome.
pub open spec fn outcome_step(
    outcome: Result<Seq<DataPipelineView>, ProcessingErrorView>,
) -> GatherStepView {
    match outcome {
        Ok(pipelines) => GatherStepView::Done(pipelines),
        Err(e) => GatherStepView::Failed(e),
    }
}

/// A failure among the first ids is the failure of them all.
pub proof fn lemma_first_failure_stays(
    ids: Seq<Seq<char>>,
    catalog: spec_fn(Seq<char>) -> Result<PipelineModelView, ProcessingErrorView>,
    k: int,
)
    requires
        0 <= k <= ids.len(),
        pipelines_of(ids.take(k), catalog) is Err,
    ensures
        pipelines_of(ids, catalog) == pipelines_of(ids.take(k), catalog),
    decreases ids.len(),
{
    if k < ids.len() {
        assert(ids.drop_last().take(k) == ids.take(k));
        lemma_first_failure_stays(ids.drop_last(), catalog, k);
    } else {
        assert(ids.take(k) == ids);
    }
}

/// From any point of a source event's resolution on, the steps end in what
/// resolving all ids in order gives.
pub proof fn lemma_resolution_goes_on(
    state: AwaitingPipelineView,
    catalog: spec_fn(Seq<char>) -> Result<PipelineModelView, ProcessingErrorView>,
)
    requires
        state.gate is None,
        state.collected.len() < state.ids.len(),
        pipelines_of(state.ids.take(state.collected.len() as int), catalog) == Ok::<
            Seq<DataPipelineView>,
            ProcessingErrorView,
        >(state.collected),
    ensures
        last_step(
            GatherStepView::FetchPipeline {
                id: state.ids[state.collected.len() as int],
                then: state,
            },
            catalog,
            (state.ids.len() - state.collected.len()) as nat,
        ) == outcome_step(pipelines_of(state.ids, catalog)),
    decreases state.ids.len() - state.collected.len(),
{
    let k = state.collected.len() as int;
    let id = state.ids[k];
    let next = step_after_pipeline(state, catalog(id));
    assert(state.ids.take(k + 1).drop_last() == state.ids.take(k));
    assert(state.ids.take(k + 1).last() == id);
    let questions = (state.ids.len() - k) as nat;
    let start = GatherStepView::FetchPipeline { id, then: state };
    assert(last_step(start, catalog, questions) == last_step(
        next,
        catalog,
        (questions - 1) as nat,
    ));
    if next is FetchPipeline {
        let then = next->then;
        assert(then.ids == state.ids);
        assert(then.collected.len() == k + 1);
        assert(pipelines_of(state.ids.take(k + 1), catalog) == Ok::<
            Seq<DataPipelineView>,
            ProcessingErrorView,
        >(then.collected));
        lemma_resolution_goes_on(then, catalog);
        assert(next == GatherStepView::FetchPipeline {
            id: then.ids[then.collected.len() as int],
            then,
        });
    } else if next is Done {
        assert(state.ids.take(k + 1) == state.ids);
    } else {
        lemma_first_failure_stays(state.ids, catalog, k + 1);
    }
}

/// The resolution of a source event ends in the pipelines of the source's
/// dependents, asked for one after the other in the catalog's order, or in
/// the first failure among them.
pub proof fn lemma_source_event_resolution(
    source: DataSourceModelView,
    catalog: spec_fn(Seq<char>) -> Result<PipelineModelView, ProcessingErrorView>,
)
    ensures
        last_step(
            step_after_data_source(Ok(source)),
            catalog,
            source.dependent_pipelines.len(),
        ) == outcome_step(pipelines_of(source.dependent_pipelines, catalog)),
{
    let ids = source.dependent_pipelines;
    if ids.len() > 0 {
        assert(ids.take(0) == Seq::<Seq<char>>::empty());
        lemma_resolution_goes_on(
            AwaitingPipelineView { ids, collected: Seq::empty(), gate: None },
            catalog,
        );
    }
}

/// The resolution of a pipeline event asks for the one pipeline that the
/// event names, and ends in that pipeline where the event agrees with what
/// the catalog stores, or in the failure.
pub proof fn lemma_pipeline_event_resolution(
    id: Seq<char>,
    success_time: int,
    callback_token: Seq<char>,
    catalog: spec_fn(Seq<char>) -> Result<PipelineModelView, ProcessingErrorView>,
)
    ensures
        last_step(
            first_step(EventPayloadView::DataPipeline { id, success_time, callback_token }),
            catalog,
            1,
        ) == match catalog(id) {
            Err(e) => GatherStepView::Failed(e),
            Ok(model) => match gated_pipeline(success_time, callback_token, model) {
                Ok(pipeline) => GatherStepView::Done(seq![pipeline]),
                Err(e) => GatherStepView::Failed(e),
            },
        },
{
    let start = first_step(EventPayloadView::DataPipeline { id, success_time, callback_token });
    let next = step_after_pipeline(start->then, catalog(id));
    assert(last_step(start, catalog, 1) == last_step(next, catalog, 0));
}

/// The resolved pipelines stand in the order of the ids: there are as many,
/// and each is the pipeline of the catalog's answer for the id at its place,
/// under the id that the answer carries.
pub proof fn lemma_resolution_preserves_order(
    ids: Seq<Seq<char>>,
    catalog: spec_fn(Seq<char>) -> Result<PipelineModelView, ProcessingErrorView>,
)
    requires
        pipelines_of(ids, catalog) is Ok,
    ensures
        pipelines_of(ids, catalog)->Ok_0.len() == ids.len(),
        forall|i: int|
            0 <= i < ids.len() ==> {
                &&& catalog(#[trigger] ids[i]) matches Ok(model)
                &&& data_pipeline_of(model) == Ok::<DataPipelineView, ProcessingErrorView>(
                    pipelines_of(ids, catalog)->Ok_0[i],
                )
                &&& pipelines_of(ids, catalog)->Ok_0[i].id == model.id
            },
    decreases ids.len(),
{
    if ids.len() > 0 {
        let first = ids.drop_last();
        lemma_resolution_preserves_order(first, catalog);
        let pipelines = pipelines_of(ids, catalog)->Ok_0;
        assert forall|i: int| 0 <= i < ids.len() implies {
            &&& catalog(#[trigger] ids[i]) matches Ok(model)
            &&& data_pipeline_of(model) == Ok::<DataPipelineView, ProcessingErrorView>(pipelines[i])
            &&& pipelines[i].id == model.id
        } by {
            if i < first.len() {
                assert(ids[i] == first[i]);
            }
        }
    }
}

/// A pipeline event that disagrees with the catalog ends the resolution with
/// the failure of the first check that it does not pass: a success time must
/// be stored, it must be the event's, a permit must be stored, and its
/// content must be the event's callback token. Nothing is asked after that.
pub proof fn lemma_gate_failures(
    success_time: int,
    callback_token: Seq<char>,
    model: PipelineModelView,
)
    ensures
        ({
            let stored = stored_success_time(model.last_success_time);
            let verdict = gated_pipeline(success_time, callback_token, model);
            &&& stored == Ok::<Option<int>, ProcessingErrorView>(None) ==> verdict is Err
                && verdict->Err_0 is MissingSuccessTime
            &&& stored is Ok && stored->Ok_0 is Some && stored->Ok_0->Some_0 != success_time
                ==> verdict is Err && verdict->Err_0 is SuccessTimeConflict
            &&& stored == Ok::<Option<int>, ProcessingErrorView>(Some(success_time))
                ==> match trigger_permit(model) {
                Err(e) => verdict == Err::<DataPipelineView, ProcessingErrorView>(e),
                Ok(permit) => match permit.permit() {
                    None => verdict is Err && verdict->Err_0 is MissingPermitContent,
                    Some(stored_permit) => stored_permit.content != callback_token ==> verdict is Err
                        && verdict->Err_0 is PermitContentConflict,
                },
            }
        }),
        gated_pipeline(success_time, callback_token, model) matches Err(e) ==> step_after_pipeline(
            AwaitingPipelineView {
                ids: Seq::empty(),
                collected: Seq::empty(),
                gate: Some((success_time, callback_token)),
            },
            Ok(model),
        ) == GatherStepView::Failed(e),
{
}

} // verus!
