//! Decision core of an event-driven pipeline trigger coordinator.
//!
//! An event tells that a data source received data or that a pipeline
//! finished. The coordinator resolves it against a catalog to the pipelines
//! that it may fire, finds out for each whether it is due, and wakes the
//! task of each that is.
//!
//! Nothing here talks to the catalog or to the workflow engine. Where the
//! outside world has to be asked, a function says what to ask, and the
//! answer is handed back as a plain value; see `pipeline_effects::gathering`
//! and `pipeline_effects::triggering`.

pub mod entities;
pub mod events;
pub mod pipeline_effects;
pub mod rendering;
pub mod signing;
pub mod timestamp;
pub mod web_url;
