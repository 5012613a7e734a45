//! What surrounds a call to the workflow engine or a request for a data
//! source's events: how an outcome is judged, where to ask for events, and
//! how their times are read.

use crate::pipeline_effects::{result_view, ProcessingError, ProcessingErrorView};
use crate::rendering::texts;
use crate::timestamp::{iso8601_parse, parse_iso8601, Timestamp};
use crate::web_url::{
    append_query_pair, byte_count, byte_len, clear_query, push_path_segment, url_append_query_pair,
    url_extend_path, url_parts, UrlParts, URL_BYTES_MAX,
};
use url::Url;
use vstd::prelude::*;
use vstd::string::*;

verus! {

/// How a heartbeat that probes a task came back from the workflow engine.
#[derive(Debug)]
pub enum ProbeOutcome {
    /// The engine took the heartbeat: the task is waiting.
    Alive,
    /// The engine reported that the task timed out: it waits no longer.
    TaskTimedOut,
    /// Anything else went wrong; the text describes it.
    Failed(String),
}

#[verifier::ext_equal]
pub ghost enum ProbeOutcomeView {
    Alive,
    TaskTimedOut,
    Failed(Seq<char>),
}

impl View for ProbeOutcome {
    type V = ProbeOutcomeView;

    open spec fn view(&self) -> ProbeOutcomeView {
        match self {
            ProbeOutcome::Alive => ProbeOutcomeView::Alive,
            ProbeOutcome::TaskTimedOut => ProbeOutcomeView::TaskTimedOut,
            ProbeOutcome::Failed(why) => ProbeOutcomeView::Failed(why@),
        }
    }
}

/// How a call that relays something to a task came back: well, or with a
/// text that describes what went wrong.
pub open spec fn relay_view(outcome: Result<(), String>) -> Result<(), Seq<char>> {
    match outcome {
        Ok(_) => Ok(()),
        Err(why) => Err(why@),
    }
}

/// What a probe tells of the task: alive, gone, or unknown because the probe
/// failed.
pub open spec fn task_readiness(outcome: ProbeOutcomeView) -> Result<bool, ProcessingErrorView> {
    match outcome {
        ProbeOutcomeView::Alive => Ok(true),
        ProbeOutcomeView::TaskTimedOut => Ok(false),
        ProbeOutcomeView::Failed(why) => Err(
            ProcessingErrorView::RelayTaskHeartbeatError(
                "State machine heartbeat relay failed.\n"@ + why,
            ),
        ),
    }
}

/// The failure that a heartbeat which did not get through stands for.
pub open spec fn heartbeat_failure(why: Seq<char>) -> ProcessingErrorView {
    ProcessingErrorView::RelayTaskHeartbeatError(
        "State machine heatbeat relay failed. Perhaps state machine down or busy.\n"@ + why,
    )
}

/// The failure that a task success which did not get through stands for.
pub open spec fn success_failure(why: Seq<char>) -> ProcessingErrorView {
    ProcessingErrorView::RelayTaskSuccessError(why)
}

/// Judges the probe of a task.
pub fn is_task_ready(outcome: ProbeOutcome) -> (r: Result<bool, ProcessingError>)
    ensures
        match r {
            Ok(ready) => task_readiness(outcome@) == Ok::<bool, ProcessingErrorView>(ready),
            Err(e) => task_readiness(outcome@) == Err::<bool, ProcessingErrorView>(e@),
        },
{
    match outcome {
        ProbeOutcome::Alive => Ok(true),
        ProbeOutcome::TaskTimedOut => Ok(false),
        ProbeOutcome::Failed(why) => {
            let mut message = "State machine heartbeat relay failed.\n".to_owned();
            message.append(why.as_str());
            Err(ProcessingError::RelayTaskHeartbeatError(message))
        },
    }
}

/// Judges the heartbeat that goes before a task success.
pub fn send_task_heartbeat(outcome: Result<(), String>) -> (r: Result<(), ProcessingError>)
    ensures
        match r {
            Ok(_) => outcome is Ok,
            Err(e) => outcome is Err && e@ == heartbeat_failure(outcome->Err_0@),
        },
{
    match outcome {
        Ok(_) => Ok(()),
        Err(why) => {
            let mut message =
                "State machine heatbeat relay failed. Perhaps state machine down or busy.\n".to_owned();
            message.append(why.as_str());
            Err(ProcessingError::RelayTaskHeartbeatError(message))
        },
    }
}

/// Judges a task success.
pub fn send_task_success(outcome: Result<(), String>) -> (r: Result<(), ProcessingError>)
    ensures
        match r {
            Ok(_) => outcome is Ok,
            Err(e) => outcome is Err && e@ == success_failure(outcome->Err_0@),
        },
{
    match outcome {
        Ok(_) => Ok(()),
        Err(why) => Err(ProcessingError::RelayTaskSuccessError(why)),
    }
}

/// The name under which a state machine without a name is listed: one that
/// no pipeline carries.
pub open spec fn nameless() -> Seq<char> {
    "dontmatchc706c64c6a794a87890ae0aa46b17d4c"@
}

/// The names of the listed state machines, in their order.
pub open spec fn listed_names(items: Seq<Option<String>>) -> Seq<Seq<char>> {
    items.map_values(
        |name: Option<String>|
            match name {
                Some(n) => n@,
                None => nameless(),
            },
    )
}

/// Judges a listing of the workflow engine's state machines: their names, in
/// the order of the listing.
pub fn fetch_state_machine_names(listing: Result<Option<Vec<Option<String>>>, String>) -> (r:
    Result<Vec<String>, ProcessingError>)
    ensures
        match r {
            Ok(names) => match listing {
                Ok(Some(items)) => texts(names@) == listed_names(items@),
                Ok(None) => names@.len() == 0,
                Err(_) => false,
            },
            Err(e) => listing is Err && e@ == ProcessingErrorView::StateMachineFetchingError(
                listing->Err_0@,
            ),
        },
{
    match listing {
        Err(why) => Err(ProcessingError::StateMachineFetchingError(why)),
        Ok(None) => Ok(Vec::new()),
        Ok(Some(items)) => {
            let mut names: Vec<String> = Vec::new();
            let mut i: usize = 0;
            while i < items.len()
                invariant
                    i <= items.len(),
                    names@.len() == i,
                    forall|j: int| 0 <= j < i ==> (#[trigger] names@[j])@ == listed_names(items@)[j],
                decreases items.len() - i,
            {
                let name = match &items[i] {
                    Some(name) => name.clone(),
                    None => "dontmatchc706c64c6a794a87890ae0aa46b17d4c".to_owned(),
                };
                names.push(name);
                i = i + 1;
            }
            assert(texts(names@) =~= listed_names(items@));
            Ok(names)
        },
    }
}

/// The room that asking for the latest events takes in a URL.
pub open spec fn events_room() -> nat {
    3 * byte_len("events"@) + 3 * byte_len("descending_order"@) + 3 * byte_len("true"@) + 6
}

/// The room that asking for the latest events takes is 84 bytes.
pub proof fn lemma_events_room()
    ensures
        byte_len("events"@) == 6,
        byte_len("descending_order"@) == 16,
        byte_len("true"@) == 4,
        events_room() == 84,
{
    reveal_strlit("events");
    reveal_strlit("descending_order");
    reveal_strlit("true");
    vstd::utf8::is_ascii_chars_encode_utf8("events"@);
    vstd::utf8::is_ascii_chars_encode_utf8("descending_order"@);
    vstd::utf8::is_ascii_chars_encode_utf8("true"@);
}

/// Whether the `url` crate can hold the address of a data source's events.
pub open spec fn events_url_fits(url: UrlParts) -> bool {
    url.cannot_be_a_base || url.byte_len() + events_room() <= URL_BYTES_MAX
}

/// The address to ask for the latest events of the data source at `url`:
/// the segment `events` is appended to the path, and the query is replaced
/// by `descending_order=true`.
pub open spec fn latest_events_url(url: UrlParts) -> Result<Seq<char>, ProcessingErrorView> {
    if url.cannot_be_a_base {
        Err(
            ProcessingErrorView::UrlParseFailure(
                "data source events endpoint url is a cannot-be-a-base url."@,
            ),
        )
    } else {
        Ok(
            url_append_query_pair(
                url_extend_path(url, seq!["events"@]).with_empty_query(),
                "descending_order"@,
                "true"@,
            ).text(),
        )
    }
}

/// The address to ask for the latest events of the data source at
/// `ds_events_url`; no answer where the address could outgrow what the `url`
/// crate can hold.
pub fn datasource_events_url(ds_events_url: &Url) -> (r: Option<Result<String, ProcessingError>>)
    ensures
        r is Some <==> events_url_fits(url_parts(*ds_events_url)),
        r matches Some(built) ==> result_view(built) == latest_events_url(
            url_parts(*ds_events_url),
        ),
{
    let mut url = ds_events_url.clone();
    if url.cannot_be_a_base() {
        return Some(
            Err(
                ProcessingError::UrlParseFailure(
                    "data source events endpoint url is a cannot-be-a-base url.".to_owned(),
                ),
            ),
        );
    }
    let bytes = byte_count(url.as_str());
    let room: usize = 84;
    proof {
        lemma_events_room();
    }
    if bytes > URL_BYTES_MAX - room {
        return None;
    }
    push_path_segment(&mut url, "events");
    clear_query(&mut url);
    append_query_pair(&mut url, "descending_order", "true");
    Some(Ok(url.as_str().to_owned()))
}

/// The instants that the times of a data source's events stand for, in their
/// order, or the failure to read the first that cannot be read.
pub open spec fn event_instants(event_times: Seq<Seq<char>>) -> Result<
    Seq<int>,
    ProcessingErrorView,
>
    decreases event_times.len(),
{
    if event_times.len() == 0 {
        Ok(Seq::empty())
    } else {
        match event_instants(event_times.drop_last()) {
            Err(e) => Err(e),
            Ok(first) => match iso8601_parse(event_times.last()) {
                Ok(instant) => Ok(first.push(instant)),
                Err(why) => Err(
                    ProcessingErrorView::DatatimeParseFailure(
                        "Failed to parse datetime:\n"@ + why,
                    ),
                ),
            },
        }
    }
}

/// The instants of a sequence of timestamps.
pub open spec fn instants(times: Seq<Timestamp>) -> Seq<int> {
    times.map_values(|t: Timestamp| t@)
}

/// Reads the times of a data source's events.
pub fn latest_event_times(event_times: &Vec<String>) -> (r: Result<Vec<Timestamp>, ProcessingError>)
    ensures
        match r {
            Ok(times) => event_instants(texts(event_times@)) == Ok::<
                Seq<int>,
                ProcessingErrorView,
            >(instants(times@)),
            Err(e) => event_instants(texts(event_times@)) == Err::<Seq<int>, ProcessingErrorView>(
                e@,
            ),
        },
{
    let mut times: Vec<Timestamp> = Vec::new();
    let mut i: usize = 0;
    assert(texts(event_times@).take(0) =~= Seq::empty());
    assert(instants(times@) =~= Seq::empty());
    while i < event_times.len()
        invariant
            i <= event_times.len(),
            event_instants(texts(event_times@).take(i as int)) == Ok::<
                Seq<int>,
                ProcessingErrorView,
            >(instants(times@)),
        decreases event_times.len() - i,
    {
        let ghost all = texts(event_times@);
        assert(all.take(i + 1).drop_last() == all.take(i as int));
        assert(all.take(i + 1).last() == event_times@[i as int]@);
        match parse_iso8601(event_times[i].as_str()) {
            Ok(nanos) => {
                let ghost before = instants(times@);
                times.push(Timestamp::from_unix_nanos(nanos));
                assert(instants(times@) =~= before.push(nanos as int));
            },
            Err(why) => {
                let mut message = "Failed to parse datetime:\n".to_owned();
                message.append(why.as_str());
                proof {
                    lemma_first_unreadable_stays(all, i + 1);
                }
                return Err(ProcessingError::DatatimeParseFailure(message));
            },
        }
        i = i + 1;
    }
    assert(texts(event_times@).take(event_times.len() as int) == texts(event_times@));
    Ok(times)
}

/// A time among the first that cannot be read fails the reading of them all
/// in the same way.
pub proof fn lemma_first_unreadable_stays(event_times: Seq<Seq<char>>, k: int)
    requires
        0 <= k <= event_times.len(),
        event_instants(event_times.take(k)) is Err,
    ensures
        event_instants(event_times) == event_instants(event_times.take(k)),
    decreases event_times.len(),
{
    if k < event_times.len() {
        assert(event_times.drop_last().take(k) == event_times.take(k));
        lemma_first_unreadable_stays(event_times.drop_last(), k);
    } else {
        assert(event_times.take(k) == event_times);
    }
}

} // verus!
