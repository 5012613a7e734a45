//! The events that the coordinator consumes.

use crate::timestamp::Timestamp;
use vstd::prelude::*;

verus! {

/// What happened: a data source received data, or a pipeline finished and
/// reports when it did and the token its task was parked on.
#[derive(Debug)]
pub enum EventPayload {
    DataSource { id: String },
    DataPipeline { id: String, success_time: Timestamp, callback_token: String },
}

#[verifier::ext_equal]
pub ghost enum EventPayloadView {
    DataSource { id: Seq<char> },
    DataPipeline { id: Seq<char>, success_time: int, callback_token: Seq<char> },
}

impl View for EventPayload {
    type V = EventPayloadView;

    open spec fn view(&self) -> EventPayloadView {
        match self {
            EventPayload::DataSource { id } => EventPayloadView::DataSource { id: id@ },
            EventPayload::DataPipeline {
                id,
                success_time,
                callback_token,
            } => EventPayloadView::DataPipeline {
                id: id@,
                success_time: success_time@,
                callback_token: callback_token@,
            },
        }
    }
}

/// A validated input event.
#[derive(Debug)]
pub struct Event {
    pub id: String,
    pub event_time: Timestamp,
    pub payload: EventPayload,
}

#[verifier::ext_equal]
pub ghost struct EventView {
    pub id: Seq<char>,
    pub event_time: int,
    pub payload: EventPayloadView,
}

impl View for Event {
    type V = EventView;

    open spec fn view(&self) -> EventView {
        EventView { id: self.id@, event_time: self.event_time@, payload: self.payload@ }
    }
}

} // verus!
