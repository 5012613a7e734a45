//! The input event envelope, and its projection into an `Event`.

use crate::entities::{Event, EventPayload, EventPayloadView, EventView};
use crate::timestamp::{iso8601_parse, parse_iso8601, Timestamp};
use vstd::prelude::*;
use vstd::string::*;

verus! {

/// Why an input event could not be made into an `Event`.
#[derive(Debug)]
pub enum EventProcessingError {
    EventValidationError(String),
    EventInitializationError(String),
    EventPersistingError(String),
    EventTimeConversionError(String),
}

#[verifier::ext_equal]
pub ghost enum EventProcessingErrorView {
    EventValidationError(Seq<char>),
    EventInitializationError(Seq<char>),
    EventPersistingError(Seq<char>),
    EventTimeConversionError(Seq<char>),
}

impl View for EventProcessingError {
    type V = EventProcessingErrorView;

    open spec fn view(&self) -> EventProcessingErrorView {
        match self {
            EventProcessingError::EventValidationError(m) => {
                EventProcessingErrorView::EventValidationError(m@)
            },
            EventProcessingError::EventInitializationError(m) => {
                EventProcessingErrorView::EventInitializationError(m@)
            },
            EventProcessingError::EventPersistingError(m) => {
                EventProcessingErrorView::EventPersistingError(m@)
            },
            EventProcessingError::EventTimeConversionError(m) => {
                EventProcessingErrorView::EventTimeConversionError(m@)
            },
        }
    }
}

/// Who raised an input event.
#[derive(Clone, Copy, Debug, PartialEq, Eq, Structural)]
pub enum RequestType {
    DataSource,
    Pipeline,
}

/// The input event envelope.
#[derive(Clone, Debug)]
pub struct Request {
    pub source: String,
    pub event_id: String,
    pub detail: RequestDetail,
}

/// The detail of an input event: who raised it, and what it carries.
#[derive(Clone, Debug)]
pub struct RequestDetail {
    pub creator_type: RequestType,
    pub creator_id: String,
    pub payload: RequestPayload,
}

/// What an input event carries. The success time and the callback token
/// belong to the events of pipelines.
#[derive(Clone, Debug)]
pub struct RequestPayload {
    pub callback_token: Option<String>,
    pub success_time: Option<String>,
    pub event_time: String,
}

#[verifier::ext_equal]
pub ghost struct RequestView {
    pub source: Seq<char>,
    pub event_id: Seq<char>,
    pub creator_type: RequestType,
    pub creator_id: Seq<char>,
    pub callback_token: Option<Seq<char>>,
    pub success_time: Option<Seq<char>>,
    pub event_time: Seq<char>,
}

impl View for Request {
    type V = RequestView;

    open spec fn view(&self) -> RequestView {
        RequestView {
            source: self.source@,
            event_id: self.event_id@,
            creator_type: self.detail.creator_type,
            creator_id: self.detail.creator_id@,
            callback_token: match self.detail.payload.callback_token {
                Some(token) => Some(token@),
                None => None,
            },
            success_time: match self.detail.payload.success_time {
                Some(time) => Some(time@),
                None => None,
            },
            event_time: self.detail.payload.event_time@,
        }
    }
}

/// The failure to read a time of an input event.
pub open spec fn time_conversion_failure(why: Seq<char>) -> EventProcessingErrorView {
    EventProcessingErrorView::EventTimeConversionError("Failed to parse datetime:\n"@ + why)
}

/// The event that an envelope stands for. The event of a pipeline must
/// carry a success time and a callback token; the times must be ISO-8601.
pub open spec fn event_of(request: RequestView) -> Result<EventView, EventProcessingErrorView> {
    if request.creator_type == RequestType::Pipeline && (request.success_time is None
        || request.callback_token is None) {
        Err(
            EventProcessingErrorView::EventValidationError(
                "A pipeline event must carry a success time and a callback token."@,
            ),
        )
    } else {
        match iso8601_parse(request.event_time) {
            Err(why) => Err(time_conversion_failure(why)),
            Ok(event_time) => match request.creator_type {
                RequestType::DataSource => Ok(
                    EventView {
                        id: request.event_id,
                        event_time,
                        payload: EventPayloadView::DataSource { id: request.creator_id },
                    },
                ),
                RequestType::Pipeline => match iso8601_parse(request.success_time->Some_0) {
                    Err(why) => Err(time_conversion_failure(why)),
                    Ok(success_time) => Ok(
                        EventView {
                            id: request.event_id,
                            event_time,
                            payload: EventPayloadView::DataPipeline {
                                id: request.creator_id,
                                success_time,
                                callback_token: request.callback_token->Some_0,
                            },
                        },
                    ),
                },
            },
        }
    }
}

fn convert_time(text: &String) -> (r: Result<Timestamp, EventProcessingError>)
    ensures
        match r {
            Ok(time) => iso8601_parse(text@) == Ok::<int, Seq<char>>(time@),
            Err(e) => iso8601_parse(text@) is Err && e@ == time_conversion_failure(
                iso8601_parse(text@)->Err_0,
            ),
        },
{
    match parse_iso8601(text.as_str()) {
        Ok(nanos) => Ok(Timestamp::from_unix_nanos(nanos)),
        Err(why) => {
            let mut message = "Failed to parse datetime:\n".to_owned();
            message.append(why.as_str());
            Err(EventProcessingError::EventTimeConversionError(message))
        },
    }
}

/// Projects an input event envelope into an `Event`.
pub fn process_input_event(request: &Request) -> (r: Result<Event, EventProcessingError>)
    ensures
        match r {
            Ok(event) => event_of(request@) == Ok::<EventView, EventProcessingErrorView>(event@),
            Err(e) => event_of(request@) == Err::<EventView, EventProcessingErrorView>(e@),
        },
{
    let payload = &request.detail.payload;
    match request.detail.creator_type {
        RequestType::DataSource => {
            let event_time = match convert_time(&payload.event_time) {
                Ok(time) => time,
                Err(e) => {
                    return Err(e);
                },
            };
            Ok(
                Event {
                    id: request.event_id.clone(),
                    event_time,
                    payload: EventPayload::DataSource { id: request.detail.creator_id.clone() },
                },
            )
        },
        RequestType::Pipeline => {
            let (success_text, callback_token) = match (
                &payload.success_time,
                &payload.callback_token,
            ) {
                (Some(time), Some(token)) => (time, token),
                _ => {
                    return Err(
                        EventProcessingError::EventValidationError(
                            "A pipeline event must carry a success time and a callback token.".to_owned(),
                        ),
                    );
                },
            };
            let event_time = match convert_time(&payload.event_time) {
                Ok(time) => time,
                Err(e) => {
                    return Err(e);
                },
            };
            let success_time = match convert_time(success_text) {
                Ok(time) => time,
                Err(e) => {
                    return Err(e);
                },
            };
            Ok(
                Event {
                    id: request.event_id.clone(),
                    event_time,
                    payload: EventPayload::DataPipeline {
                        id: request.detail.creator_id.clone(),
                        success_time,
                        callback_token: callback_token.clone(),
                    },
                },
            )
        },
    }
}

} // verus!
