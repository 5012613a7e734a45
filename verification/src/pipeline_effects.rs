//! Pipelines, their trigger permits, and what can go wrong with them.

pub mod endpoint;
pub mod gathering;
pub mod triggering;

use crate::rendering::{debug_list, debug_str, debug_strings, str_debug, texts};
use crate::timestamp::Timestamp;
use crate::web_url::{url_parts, UrlParts};
use url::Url;
use vstd::prelude::*;
use vstd::string::*;

verus! {

/// Why an event could not be resolved, or a pipeline not be triggered. Each
/// failure carries a message for the operator.
#[derive(Debug)]
pub enum ProcessingError {
    UnrecognizedTriggerType(String),
    MissingSuccessTime(String),
    SuccessTimeConflict(String),
    MissingPermitContent(String),
    PermitContentConflict(String),
    DatatimeParseFailure(String),
    UrlParseFailure(String),
    ModelFetchFailure(String),
    MissingPipelinePermit(String),
    StateMachineFetchingError(String),
    RelayTaskSuccessError(String),
    RelayTaskHeartbeatError(String),
    PipelineStateMachineMissing(String),
}

/// A `ProcessingError` with its message as a sequence of characters.
#[verifier::ext_equal]
pub ghost enum ProcessingErrorView {
    UnrecognizedTriggerType(Seq<char>),
    MissingSuccessTime(Seq<char>),
    SuccessTimeConflict(Seq<char>),
    MissingPermitContent(Seq<char>),
    PermitContentConflict(Seq<char>),
    DatatimeParseFailure(Seq<char>),
    UrlParseFailure(Seq<char>),
    ModelFetchFailure(Seq<char>),
    MissingPipelinePermit(Seq<char>),
    StateMachineFetchingError(Seq<char>),
    RelayTaskSuccessError(Seq<char>),
    RelayTaskHeartbeatError(Seq<char>),
    PipelineStateMachineMissing(Seq<char>),
}

impl ProcessingErrorView {
    /// The name of the failure's kind.
    pub open spec fn name(self) -> Seq<char> {
        match self {
            ProcessingErrorView::UnrecognizedTriggerType(_) => "UnrecognizedTriggerType"@,
            ProcessingErrorView::MissingSuccessTime(_) => "MissingSuccessTime"@,
            ProcessingErrorView::SuccessTimeConflict(_) => "SuccessTimeConflict"@,
            ProcessingErrorView::MissingPermitContent(_) => "MissingPermitContent"@,
            ProcessingErrorView::PermitContentConflict(_) => "PermitContentConflict"@,
            ProcessingErrorView::DatatimeParseFailure(_) => "DatatimeParseFailure"@,
            ProcessingErrorView::UrlParseFailure(_) => "UrlParseFailure"@,
            ProcessingErrorView::ModelFetchFailure(_) => "ModelFetchFailure"@,
            ProcessingErrorView::MissingPipelinePermit(_) => "MissingPipelinePermit"@,
            ProcessingErrorView::StateMachineFetchingError(_) => "StateMachineFetchingError"@,
            ProcessingErrorView::RelayTaskSuccessError(_) => "RelayTaskSuccessError"@,
            ProcessingErrorView::RelayTaskHeartbeatError(_) => "RelayTaskHeartbeatError"@,
            ProcessingErrorView::PipelineStateMachineMissing(_) => "PipelineStateMachineMissing"@,
        }
    }

    /// The message that the failure carries.
    pub open spec fn message(self) -> Seq<char> {
        match self {
            ProcessingErrorView::UnrecognizedTriggerType(m) => m,
            ProcessingErrorView::MissingSuccessTime(m) => m,
            ProcessingErrorView::SuccessTimeConflict(m) => m,
            ProcessingErrorView::MissingPermitContent(m) => m,
            ProcessingErrorView::PermitContentConflict(m) => m,
            ProcessingErrorView::DatatimeParseFailure(m) => m,
            ProcessingErrorView::UrlParseFailure(m) => m,
            ProcessingErrorView::ModelFetchFailure(m) => m,
            ProcessingErrorView::MissingPipelinePermit(m) => m,
            ProcessingErrorView::StateMachineFetchingError(m) => m,
            ProcessingErrorView::RelayTaskSuccessError(m) => m,
            ProcessingErrorView::RelayTaskHeartbeatError(m) => m,
            ProcessingErrorView::PipelineStateMachineMissing(m) => m,
        }
    }

    /// The failure as `{:?}` prints it: the kind's name, then the quoted
    /// message in parentheses.
    pub open spec fn describe(self) -> Seq<char> {
        self.name() + "("@ + str_debug(self.message()) + ")"@
    }
}

impl View for ProcessingError {
    type V = ProcessingErrorView;

    open spec fn view(&self) -> ProcessingErrorView {
        match self {
            ProcessingError::UnrecognizedTriggerType(m) => {
                ProcessingErrorView::UnrecognizedTriggerType(m@)
            },
            ProcessingError::MissingSuccessTime(m) => ProcessingErrorView::MissingSuccessTime(m@),
            ProcessingError::SuccessTimeConflict(m) => ProcessingErrorView::SuccessTimeConflict(m@),
            ProcessingError::MissingPermitContent(m) => ProcessingErrorView::MissingPermitContent(
                m@,
            ),
            ProcessingError::PermitContentConflict(m) => ProcessingErrorView::PermitContentConflict(
                m@,
            ),
            ProcessingError::DatatimeParseFailure(m) => ProcessingErrorView::DatatimeParseFailure(
                m@,
            ),
            ProcessingError::UrlParseFailure(m) => ProcessingErrorView::UrlParseFailure(m@),
            ProcessingError::ModelFetchFailure(m) => ProcessingErrorView::ModelFetchFailure(m@),
            ProcessingError::MissingPipelinePermit(m) => ProcessingErrorView::MissingPipelinePermit(
                m@,
            ),
            ProcessingError::StateMachineFetchingError(m) => {
                ProcessingErrorView::StateMachineFetchingError(m@)
            },
            ProcessingError::RelayTaskSuccessError(m) => ProcessingErrorView::RelayTaskSuccessError(
                m@,
            ),
            ProcessingError::RelayTaskHeartbeatError(m) => {
                ProcessingErrorView::RelayTaskHeartbeatError(m@)
            },
            ProcessingError::PipelineStateMachineMissing(m) => {
                ProcessingErrorView::PipelineStateMachineMissing(m@)
            },
        }
    }
}

impl ProcessingError {
    /// The name of the failure's kind.
    pub fn name(&self) -> (name: &'static str)
        ensures
            name@ == self@.name(),
    {
        match self {
            ProcessingError::UnrecognizedTriggerType(_) => "UnrecognizedTriggerType",
            ProcessingError::MissingSuccessTime(_) => "MissingSuccessTime",
            ProcessingError::SuccessTimeConflict(_) => "SuccessTimeConflict",
            ProcessingError::MissingPermitContent(_) => "MissingPermitContent",
            ProcessingError::PermitContentConflict(_) => "PermitContentConflict",
            ProcessingError::DatatimeParseFailure(_) => "DatatimeParseFailure",
            ProcessingError::UrlParseFailure(_) => "UrlParseFailure",
            ProcessingError::ModelFetchFailure(_) => "ModelFetchFailure",
            ProcessingError::MissingPipelinePermit(_) => "MissingPipelinePermit",
            ProcessingError::StateMachineFetchingError(_) => "StateMachineFetchingError",
            ProcessingError::RelayTaskSuccessError(_) => "RelayTaskSuccessError",
            ProcessingError::RelayTaskHeartbeatError(_) => "RelayTaskHeartbeatError",
            ProcessingError::PipelineStateMachineMissing(_) => "PipelineStateMachineMissing",
        }
    }

    /// The message that the failure carries.
    pub fn message(&self) -> (message: &String)
        ensures
            message@ == self@.message(),
    {
        match self {
            ProcessingError::UnrecognizedTriggerType(m) => m,
            ProcessingError::MissingSuccessTime(m) => m,
            ProcessingError::SuccessTimeConflict(m) => m,
            ProcessingError::MissingPermitContent(m) => m,
            ProcessingError::PermitContentConflict(m) => m,
            ProcessingError::DatatimeParseFailure(m) => m,
            ProcessingError::UrlParseFailure(m) => m,
            ProcessingError::ModelFetchFailure(m) => m,
            ProcessingError::MissingPipelinePermit(m) => m,
            ProcessingError::StateMachineFetchingError(m) => m,
            ProcessingError::RelayTaskSuccessError(m) => m,
            ProcessingError::RelayTaskHeartbeatError(m) => m,
            ProcessingError::PipelineStateMachineMissing(m) => m,
        }
    }

    /// The failure as `{:?}` prints it.
    pub fn describe(&self) -> (text: String)
        ensures
            text@ == self@.describe(),
    {
        let mut text = self.name().to_owned();
        text.append("(");
        let quoted = debug_str(self.message().as_str());
        text.append(quoted.as_str());
        text.append(")");
        text
    }
}

/// The token on which a pipeline's task is parked in the workflow engine.
#[derive(Debug)]
pub struct PipelineTriggerPermit {
    pub content: String,
    pub is_expired: bool,
}

#[verifier::ext_equal]
pub ghost struct PermitView {
    pub content: Seq<char>,
    pub is_expired: bool,
}

impl View for PipelineTriggerPermit {
    type V = PermitView;

    open spec fn view(&self) -> PermitView {
        PermitView { content: self.content@, is_expired: self.is_expired }
    }
}

/// When a pipeline may fire: as soon as any of its sources has fresh data, or
/// only once all of them have. Either way the permit may be missing.
#[derive(Debug)]
pub enum TriggerPermitType {
    Lenient(Option<PipelineTriggerPermit>),
    Strict(Option<PipelineTriggerPermit>),
}

#[verifier::ext_equal]
pub ghost enum TriggerPermitView {
    Lenient(Option<PermitView>),
    Strict(Option<PermitView>),
}

impl TriggerPermitView {
    /// The permit, whatever the rule.
    pub open spec fn permit(self) -> Option<PermitView> {
        match self {
            TriggerPermitView::Lenient(p) => p,
            TriggerPermitView::Strict(p) => p,
        }
    }
}

/// The view of a permit that may be missing.
pub open spec fn permit_view(permit: Option<PipelineTriggerPermit>) -> Option<PermitView> {
    match permit {
        Some(p) => Some(p@),
        None => None,
    }
}

impl View for TriggerPermitType {
    type V = TriggerPermitView;

    open spec fn view(&self) -> TriggerPermitView {
        match self {
            TriggerPermitType::Lenient(p) => TriggerPermitView::Lenient(permit_view(*p)),
            TriggerPermitType::Strict(p) => TriggerPermitView::Strict(permit_view(*p)),
        }
    }
}

/// A pipeline as the coordinator works with it.
#[derive(Debug)]
pub struct DataPipeline {
    pub id: String,
    pub description: String,
    pub last_success_time: Option<Timestamp>,
    pub permit: TriggerPermitType,
    pub dependency_urls: Vec<Url>,
}

#[verifier::ext_equal]
pub ghost struct DataPipelineView {
    pub id: Seq<char>,
    pub description: Seq<char>,
    pub last_success_time: Option<int>,
    pub permit: TriggerPermitView,
    pub dependency_urls: Seq<UrlParts>,
}

/// The instant of a timestamp that may be missing.
pub open spec fn instant_view(time: Option<Timestamp>) -> Option<int> {
    match time {
        Some(t) => Some(t@),
        None => None,
    }
}

/// The URLs of a sequence as the contracts see them.
pub open spec fn urls_view(urls: Seq<Url>) -> Seq<UrlParts> {
    urls.map_values(|u: Url| url_parts(u))
}

impl View for DataPipeline {
    type V = DataPipelineView;

    open spec fn view(&self) -> DataPipelineView {
        DataPipelineView {
            id: self.id@,
            description: self.description@,
            last_success_time: instant_view(self.last_success_time),
            permit: self.permit@,
            dependency_urls: urls_view(self.dependency_urls@),
        }
    }
}

/// A result with both sides as the contracts see them.
pub open spec fn result_view<T: View, E: View>(r: Result<T, E>) -> Result<T::V, E::V> {
    match r {
        Ok(value) => Ok(value@),
        Err(error) => Err(error@),
    }
}

/// The pipelines of a sequence as the contracts see them.
pub open spec fn pipelines_view(pipelines: Seq<DataPipeline>) -> Seq<DataPipelineView> {
    pipelines.map_values(|p: DataPipeline| p@)
}

/// The outcomes of the attempts to trigger the pipelines of an event, as the
/// contracts see them.
pub open spec fn outcomes_view(outcomes: Seq<Result<(), ProcessingError>>) -> Seq<
    Result<(), ProcessingErrorView>,
> {
    outcomes.map_values(|outcome: Result<(), ProcessingError>| result_view(outcome))
}

/// The failures among the outcomes, each as `{:?}` prints it, in the order
/// of the outcomes.
pub open spec fn failure_texts(outcomes: Seq<Result<(), ProcessingErrorView>>) -> Seq<Seq<char>>
    decreases outcomes.len(),
{
    if outcomes.len() == 0 {
        Seq::empty()
    } else {
        let first = failure_texts(outcomes.drop_last());
        match outcomes.last() {
            Ok(_) => first,
            Err(e) => first.push(e.describe()),
        }
    }
}

/// What an invocation comes to: success where no attempt failed, and else a
/// summary that lists every failure.
pub open spec fn effects_summary(outcomes: Seq<Result<(), ProcessingErrorView>>) -> Result<
    (),
    Seq<char>,
> {
    if failure_texts(outcomes).len() == 0 {
        Ok(())
    } else {
        Err(
            "Not all relevant pipelines were successfully triggered.\n"@ + debug_list(
                failure_texts(outcomes),
            ),
        )
    }
}

/// There are failure texts exactly where an attempt failed.
pub proof fn lemma_failures_are_listed(outcomes: Seq<Result<(), ProcessingErrorView>>)
    ensures
        failure_texts(outcomes).len() <= outcomes.len(),
        failure_texts(outcomes).len() > 0 <==> exists|i: int|
            0 <= i < outcomes.len() && #[trigger] outcomes[i] is Err,
    decreases outcomes.len(),
{
    if outcomes.len() > 0 {
        let first = outcomes.drop_last();
        lemma_failures_are_listed(first);
        if failure_texts(outcomes).len() > 0 {
            if outcomes.last() is Err {
                assert(outcomes[outcomes.len() - 1] is Err);
            } else {
                let i = choose|i: int| 0 <= i < first.len() && #[trigger] first[i] is Err;
                assert(outcomes[i] is Err);
            }
        } else {
            assert forall|i: int| 0 <= i < outcomes.len() implies !(#[trigger] outcomes[i]
                is Err) by {
                if i < first.len() {
                    assert(first[i] == outcomes[i]);
                }
            }
        }
    }
}

/// The pipelines of an event are being triggered, one after the other.
#[derive(Debug)]
pub struct AwaitingOutcomes {}

/// What the caller is to do once an event was resolved.
#[derive(Debug)]
pub enum EffectsStep {
    /// Try to trigger each of `pipelines`, in their order, and hand the
    /// outcomes to `then`.
    TriggerEach { pipelines: Vec<DataPipeline>, then: AwaitingOutcomes },
    /// The invocation has failed; the text says why.
    Failed(String),
}

#[verifier::ext_equal]
pub ghost enum EffectsStepView {
    TriggerEach { pipelines: Seq<DataPipelineView> },
    Failed(Seq<char>),
}

impl View for EffectsStep {
    type V = EffectsStepView;

    open spec fn view(&self) -> EffectsStepView {
        match self {
            EffectsStep::TriggerEach { pipelines, then } => EffectsStepView::TriggerEach {
                pipelines: pipelines_view(pipelines@),
            },
            EffectsStep::Failed(why) => EffectsStepView::Failed(why@),
        }
    }
}

/// The step after the resolution of an event: a failed resolution fails the
/// invocation with the failure as `{:?}` prints it, and nothing is
/// triggered; else every resolved pipeline is tried, in the catalog's order.
pub open spec fn step_after_resolution(
    resolution: Result<Seq<DataPipelineView>, ProcessingErrorView>,
) -> EffectsStepView {
    match resolution {
        Ok(pipelines) => EffectsStepView::TriggerEach { pipelines },
        Err(e) => EffectsStepView::Failed(e.describe()),
    }
}

/// A resolution as the contracts see it.
pub open spec fn resolution_view(resolution: Result<Vec<DataPipeline>, ProcessingError>) -> Result<
    Seq<DataPipelineView>,
    ProcessingErrorView,
> {
    match resolution {
        Ok(pipelines) => Ok(pipelines_view(pipelines@)),
        Err(e) => Err(e@),
    }
}

/// Says what follows the resolution of an event: which pipelines to try, or
/// that the invocation has failed.
pub fn generate_pipeline_effects(resolution: Result<Vec<DataPipeline>, ProcessingError>) -> (step:
    EffectsStep)
    ensures
        step@ == step_after_resolution(resolution_view(resolution)),
{
    match resolution {
        Ok(pipelines) => EffectsStep::TriggerEach { pipelines, then: AwaitingOutcomes {  } },
        Err(e) => EffectsStep::Failed(e.describe()),
    }
}

impl AwaitingOutcomes {
    /// Sums up the attempts to trigger the pipelines of an event: one failing
    /// pipeline does not hide the others, and any failure fails the
    /// invocation.
    pub fn accept(self, outcomes: &Vec<Result<(), ProcessingError>>) -> (r: Result<(), String>)
        ensures
            match r {
                Ok(_) => effects_summary(outcomes_view(outcomes@)) is Ok,
                Err(summary) => effects_summary(outcomes_view(outcomes@)) == Err::<(), Seq<char>>(
                    summary@,
                ),
            },
            r is Err <==> exists|i: int| 0 <= i < outcomes@.len() && #[trigger] outcomes@[i] is Err,
    {
        let mut error_strings: Vec<String> = Vec::new();
        let mut i: usize = 0;
        assert(outcomes_view(outcomes@).take(0) =~= Seq::empty());
        while i < outcomes.len()
            invariant
                i <= outcomes.len(),
                texts(error_strings@) == failure_texts(outcomes_view(outcomes@).take(i as int)),
            decreases outcomes.len() - i,
        {
            let ghost all = outcomes_view(outcomes@);
            assert(all.take(i + 1).drop_last() == all.take(i as int));
            assert(all.take(i + 1).last() == result_view(outcomes@[i as int]));
            match &outcomes[i] {
                Ok(_) => {},
                Err(error) => {
                    let ghost before = texts(error_strings@);
                    error_strings.push(error.describe());
                    assert(texts(error_strings@) =~= before.push(error@.describe()));
                },
            }
            i = i + 1;
        }
        proof {
            let all = outcomes_view(outcomes@);
            assert(all.take(outcomes.len() as int) == all);
            lemma_failures_are_listed(all);
            if exists|i: int| 0 <= i < all.len() && #[trigger] all[i] is Err {
                let i = choose|i: int| 0 <= i < all.len() && #[trigger] all[i] is Err;
                assert(outcomes@[i] is Err);
            }
            if exists|i: int| 0 <= i < outcomes@.len() && #[trigger] outcomes@[i] is Err {
                let i = choose|i: int| 0 <= i < outcomes@.len() && #[trigger] outcomes@[i] is Err;
                assert(all[i] is Err);
            }
        }
        if error_strings.len() > 0 {
            let mut summary = "Not all relevant pipelines were successfully triggered.\n".to_owned();
            let listed = debug_strings(&error_strings);
            summary.append(listed.as_str());
            Err(summary)
        } else {
            Ok(())
        }
    }
}

} // verus!
