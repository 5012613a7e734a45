use pipeline_trigger::pipeline_effects::triggering::remote::{
    datasource_events_url, fetch_state_machine_names, is_task_ready, latest_event_times,
    send_task_heartbeat, send_task_success, ProbeOutcome,
};
use pipeline_trigger::pipeline_effects::triggering::{
    can_trigger_pipeline, does_state_machine_exist, get_task_token, has_fresh,
    maybe_trigger_pipeline, trigger_pipeline, TriggerStep,
};
use pipeline_trigger::pipeline_effects::{
    DataPipeline, PipelineTriggerPermit, ProcessingError, TriggerPermitType,
};
use pipeline_trigger::timestamp::Timestamp;
use std::cell::RefCell;
use url::Url;

const T: i128 = 1_672_531_200_000_000_000;

fn permit(token: &str) -> Option<PipelineTriggerPermit> {
    Some(PipelineTriggerPermit {
        content: token.to_string(),
        is_expired: false,
    })
}

fn pipeline(permit: TriggerPermitType, since: Option<i128>, urls: &[&str]) -> DataPipeline {
    DataPipeline {
        id: "pipA".to_string(),
        description: "pipeline: pipA".to_string(),
        last_success_time: since.map(Timestamp::from_unix_nanos),
        permit,
        dependency_urls: urls.iter().map(|u| Url::parse(u).unwrap()).collect(),
    }
}

fn times(nanos: &[i128]) -> Result<Vec<Timestamp>, ProcessingError> {
    Ok(nanos.iter().map(|n| Timestamp::from_unix_nanos(*n)).collect())
}

/// Runs the steps for one pipeline; the trace lists what was asked of the
/// outside, in order.
fn run<'a>(
    data_pipeline: &'a DataPipeline,
    events: &dyn Fn(&str) -> Result<Vec<Timestamp>, ProcessingError>,
    probe: &dyn Fn() -> ProbeOutcome,
    heartbeat: &dyn Fn() -> Result<(), String>,
    success: &dyn Fn() -> Result<(), String>,
    trace: &RefCell<Vec<String>>,
) -> TriggerStep<'a> {
    let mut step = maybe_trigger_pipeline(data_pipeline);
    loop {
        step = match step {
            TriggerStep::FetchEvents { url, then } => {
                trace.borrow_mut().push(format!("events {}", url));
                then.accept(events(url.as_str()))
            }
            TriggerStep::ProbeReadiness { token, then } => {
                trace.borrow_mut().push(format!("probe {}", token));
                then.accept(probe())
            }
            TriggerStep::SendHeartbeat { token, then } => {
                trace.borrow_mut().push(format!("heartbeat {}", token));
                then.accept(heartbeat())
            }
            TriggerStep::SendSuccess { token, then } => {
                trace.borrow_mut().push(format!("success {}", token));
                then.accept(success())
            }
            last => return last,
        };
    }
}

#[test]
fn lenient_pipeline_stops_at_the_first_fresh_source() {
    let p = pipeline(
        TriggerPermitType::Lenient(permit("tok1")),
        Some(T),
        &["https://api.x/srcA", "https://api.x/srcB", "https://api.x/srcC"],
    );
    let trace = RefCell::new(vec![]);
    let last = run(
        &p,
        &|url| {
            if url.ends_with("srcB") {
                times(&[T - 5, T])
            } else {
                times(&[T - 1])
            }
        },
        &|| ProbeOutcome::Alive,
        &|| Ok(()),
        &|| Ok(()),
        &trace,
    );
    assert!(matches!(last, TriggerStep::Triggered));
    assert_eq!(
        *trace.borrow(),
        vec![
            "events https://api.x/srcA",
            "events https://api.x/srcB",
            "probe tok1",
            "heartbeat tok1",
            "success tok1"
        ]
    );
}

#[test]
fn lenient_pipeline_without_fresh_events_is_not_triggered() {
    let p = pipeline(
        TriggerPermitType::Lenient(permit("tok1")),
        Some(T),
        &["https://api.x/srcA", "https://api.x/srcB"],
    );
    let trace = RefCell::new(vec![]);
    let last = run(
        &p,
        &|_| times(&[T - 1, T - 2]),
        &|| ProbeOutcome::Alive,
        &|| Ok(()),
        &|| Ok(()),
        &trace,
    );
    match last {
        TriggerStep::NotTriggered(message) => {
            assert_eq!(message, "Pipeline with id pipA was not triggered.")
        }
        other => panic!("unexpected: {:?}", other),
    }
    assert_eq!(
        *trace.borrow(),
        vec!["events https://api.x/srcA", "events https://api.x/srcB"]
    );
}

#[test]
fn lenient_pipeline_without_sources_is_not_triggered() {
    let p = pipeline(TriggerPermitType::Lenient(permit("tok1")), Some(T), &[]);
    let trace = RefCell::new(vec![]);
    let last = run(
        &p,
        &|_| times(&[T]),
        &|| ProbeOutcome::Alive,
        &|| Ok(()),
        &|| Ok(()),
        &trace,
    );
    assert!(matches!(last, TriggerStep::NotTriggered(_)));
    assert!(trace.borrow().is_empty());
}

#[test]
fn strict_pipeline_asks_every_source_and_needs_each() {
    let p = pipeline(
        TriggerPermitType::Strict(permit("tok1")),
        Some(T),
        &["https://api.x/srcA", "https://api.x/srcB", "https://api.x/srcC"],
    );
    let trace = RefCell::new(vec![]);
    let last = run(
        &p,
        &|url| {
            if url.ends_with("srcA") {
                times(&[T - 1])
            } else {
                times(&[T + 1])
            }
        },
        &|| ProbeOutcome::Alive,
        &|| Ok(()),
        &|| Ok(()),
        &trace,
    );
    assert!(matches!(last, TriggerStep::NotTriggered(_)));
    assert_eq!(
        *trace.borrow(),
        vec![
            "events https://api.x/srcA",
            "events https://api.x/srcB",
            "events https://api.x/srcC"
        ]
    );
}

#[test]
fn strict_pipeline_with_all_sources_fresh_is_triggered() {
    let p = pipeline(
        TriggerPermitType::Strict(permit("tok1")),
        Some(T),
        &["https://api.x/srcA", "https://api.x/srcB"],
    );
    let trace = RefCell::new(vec![]);
    let last = run(
        &p,
        &|_| times(&[T - 7, T]),
        &|| ProbeOutcome::Alive,
        &|| Ok(()),
        &|| Ok(()),
        &trace,
    );
    assert!(matches!(last, TriggerStep::Triggered));
    assert_eq!(
        *trace.borrow(),
        vec![
            "events https://api.x/srcA",
            "events https://api.x/srcB",
            "probe tok1",
            "heartbeat tok1",
            "success tok1"
        ]
    );
}

#[test]
fn strict_pipeline_without_sources_is_not_triggered() {
    let p = pipeline(TriggerPermitType::Strict(permit("tok1")), Some(T), &[]);
    let trace = RefCell::new(vec![]);
    let last = run(
        &p,
        &|_| times(&[T]),
        &|| ProbeOutcome::Alive,
        &|| Ok(()),
        &|| Ok(()),
        &trace,
    );
    assert!(matches!(last, TriggerStep::NotTriggered(_)));
    assert!(trace.borrow().is_empty());
}

#[test]
fn pipeline_without_last_success_time_fails_before_anything_is_asked() {
    let p = pipeline(
        TriggerPermitType::Lenient(permit("tok1")),
        None,
        &["https://api.x/srcA"],
    );
    match can_trigger_pipeline(&p) {
        TriggerStep::Failed(ProcessingError::MissingSuccessTime(message)) => assert_eq!(
            message,
            "Last success time missing for pipeline with id pipA"
        ),
        other => panic!("unexpected: {:?}", other),
    }
}

#[test]
fn failing_event_fetch_fails_the_attempt() {
    let p = pipeline(
        TriggerPermitType::Strict(permit("tok1")),
        Some(T),
        &["https://api.x/srcA", "https://api.x/srcB"],
    );
    let trace = RefCell::new(vec![]);
    let last = run(
        &p,
        &|_| Err(ProcessingError::ModelFetchFailure("down".to_string())),
        &|| ProbeOutcome::Alive,
        &|| Ok(()),
        &|| Ok(()),
        &trace,
    );
    match last {
        TriggerStep::Failed(ProcessingError::ModelFetchFailure(message)) => {
            assert_eq!(message, "down")
        }
        other => panic!("unexpected: {:?}", other),
    }
    assert_eq!(*trace.borrow(), vec!["events https://api.x/srcA"]);
}

#[test]
fn due_pipeline_without_permit_fails_at_the_probe() {
    let p = pipeline(
        TriggerPermitType::Lenient(None),
        Some(T),
        &["https://api.x/srcA"],
    );
    let trace = RefCell::new(vec![]);
    let last = run(
        &p,
        &|_| times(&[T]),
        &|| ProbeOutcome::Alive,
        &|| Ok(()),
        &|| Ok(()),
        &trace,
    );
    match last {
        TriggerStep::Failed(ProcessingError::MissingPipelinePermit(message)) => {
            assert_eq!(message, "Missing pipeline trigger permit for pipA")
        }
        other => panic!("unexpected: {:?}", other),
    }
    assert_eq!(*trace.borrow(), vec!["events https://api.x/srcA"]);
}

#[test]
fn timed_out_task_is_left_alone() {
    let p = pipeline(
        TriggerPermitType::Lenient(permit("tok1")),
        Some(T),
        &["https://api.x/srcA"],
    );
    let trace = RefCell::new(vec![]);
    let last = run(
        &p,
        &|_| times(&[T]),
        &|| ProbeOutcome::TaskTimedOut,
        &|| Ok(()),
        &|| Ok(()),
        &trace,
    );
    assert!(matches!(last, TriggerStep::NotTriggered(_)));
    assert_eq!(
        *trace.borrow(),
        vec!["events https://api.x/srcA", "probe tok1"]
    );
}

#[test]
fn failing_probe_fails_the_attempt() {
    let p = pipeline(
        TriggerPermitType::Lenient(permit("tok1")),
        Some(T),
        &["https://api.x/srcA"],
    );
    let trace = RefCell::new(vec![]);
    let last = run(
        &p,
        &|_| times(&[T]),
        &|| ProbeOutcome::Failed("InvalidToken".to_string()),
        &|| Ok(()),
        &|| Ok(()),
        &trace,
    );
    match last {
        TriggerStep::Failed(ProcessingError::RelayTaskHeartbeatError(message)) => assert_eq!(
            message,
            "State machine heartbeat relay failed.\nInvalidToken"
        ),
        other => panic!("unexpected: {:?}", other),
    }
}

#[test]
fn failing_heartbeat_aborts_before_success() {
    let p = pipeline(
        TriggerPermitType::Lenient(permit("tok1")),
        Some(T),
        &["https://api.x/srcA"],
    );
    let trace = RefCell::new(vec![]);
    let last = run(
        &p,
        &|_| times(&[T]),
        &|| ProbeOutcome::Alive,
        &|| Err("busy".to_string()),
        &|| Ok(()),
        &trace,
    );
    match last {
        TriggerStep::Failed(ProcessingError::RelayTaskHeartbeatError(message)) => assert_eq!(
            message,
            "State machine heatbeat relay failed. Perhaps state machine down or busy.\nbusy"
        ),
        other => panic!("unexpected: {:?}", other),
    }
    assert_eq!(
        *trace.borrow(),
        vec!["events https://api.x/srcA", "probe tok1", "heartbeat tok1"]
    );
}

#[test]
fn failing_success_fails_the_attempt() {
    let p = pipeline(
        TriggerPermitType::Strict(permit("tok1")),
        Some(T),
        &["https://api.x/srcA"],
    );
    let trace = RefCell::new(vec![]);
    let last = run(
        &p,
        &|_| times(&[T]),
        &|| ProbeOutcome::Alive,
        &|| Ok(()),
        &|| Err("gone".to_string()),
        &trace,
    );
    match last {
        TriggerStep::Failed(ProcessingError::RelayTaskSuccessError(message)) => {
            assert_eq!(message, "gone")
        }
        other => panic!("unexpected: {:?}", other),
    }
}

#[test]
fn trigger_pipeline_sends_the_heartbeat_first() {
    let p = pipeline(TriggerPermitType::Strict(permit("tok9")), Some(T), &[]);
    match trigger_pipeline(&p) {
        TriggerStep::SendHeartbeat { token, then } => {
            assert_eq!(token, "tok9");
            match then.accept(Ok(())) {
                TriggerStep::SendSuccess { token, then } => {
                    assert_eq!(token, "tok9");
                    assert!(matches!(then.accept(Ok(())), TriggerStep::Triggered));
                }
                other => panic!("unexpected: {:?}", other),
            }
        }
        other => panic!("unexpected: {:?}", other),
    }
}

#[test]
fn relay_runs_on_the_token_of_the_permit() {
    let p = pipeline(
        TriggerPermitType::Lenient(permit("tok-7")),
        Some(T),
        &["https://api.x/srcA"],
    );
    let trace = RefCell::new(vec![]);
    let last = run(
        &p,
        &|_| times(&[T + 3]),
        &|| ProbeOutcome::Alive,
        &|| Ok(()),
        &|| Ok(()),
        &trace,
    );
    assert!(matches!(last, TriggerStep::Triggered));
    assert_eq!(
        *trace.borrow(),
        vec![
            "events https://api.x/srcA",
            "probe tok-7",
            "heartbeat tok-7",
            "success tok-7"
        ]
    );
}

#[test]
fn get_task_token_reads_either_kind_of_permit() {
    let lenient = pipeline(TriggerPermitType::Lenient(permit("tokL")), Some(T), &[]);
    let strict = pipeline(TriggerPermitType::Strict(permit("tokS")), Some(T), &[]);
    let none = pipeline(TriggerPermitType::Strict(None), Some(T), &[]);
    assert_eq!(get_task_token(&lenient).unwrap(), "tokL");
    assert_eq!(get_task_token(&strict).unwrap(), "tokS");
    assert!(matches!(
        get_task_token(&none),
        Err(ProcessingError::MissingPipelinePermit(_))
    ));
}

#[test]
fn has_fresh_compares_with_the_last_success_time() {
    let since = Timestamp::from_unix_nanos(T);
    let at = |n: i128| Timestamp::from_unix_nanos(n);
    assert!(!has_fresh(&vec![], &since));
    assert!(!has_fresh(&vec![at(T - 1)], &since));
    assert!(has_fresh(&vec![at(T - 1), at(T)], &since));
    assert!(has_fresh(&vec![at(T + 1), at(T - 1)], &since));
}

#[test]
fn does_state_machine_exist_looks_for_the_pipeline_id() {
    let p = pipeline(TriggerPermitType::Strict(None), None, &[]);
    let names = vec!["pipB".to_string(), "pipA".to_string()];
    assert!(does_state_machine_exist(&p, &names));
    assert!(!does_state_machine_exist(&p, &vec!["pipa".to_string()]));
    assert!(!does_state_machine_exist(&p, &vec![]));
}

#[test]
fn is_task_ready_tells_alive_from_timed_out() {
    assert_eq!(is_task_ready(ProbeOutcome::Alive).unwrap(), true);
    assert_eq!(is_task_ready(ProbeOutcome::TaskTimedOut).unwrap(), false);
    match is_task_ready(ProbeOutcome::Failed("TaskDoesNotExist".to_string())) {
        Err(ProcessingError::RelayTaskHeartbeatError(message)) => assert_eq!(
            message,
            "State machine heartbeat relay failed.\nTaskDoesNotExist"
        ),
        other => panic!("unexpected: {:?}", other),
    }
}

#[test]
fn relay_outcomes_are_judged() {
    assert!(send_task_heartbeat(Ok(())).is_ok());
    assert!(send_task_success(Ok(())).is_ok());
    assert!(matches!(
        send_task_heartbeat(Err("x".to_string())),
        Err(ProcessingError::RelayTaskHeartbeatError(_))
    ));
    match send_task_success(Err("boom".to_string())) {
        Err(ProcessingError::RelayTaskSuccessError(message)) => assert_eq!(message, "boom"),
        other => panic!("unexpected: {:?}", other),
    }
}

#[test]
fn state_machine_names_keep_their_order() {
    let listing = Ok(Some(vec![Some("a".to_string()), None, Some("b".to_string())]));
    assert_eq!(
        fetch_state_machine_names(listing).unwrap(),
        vec!["a", "dontmatchc706c64c6a794a87890ae0aa46b17d4c", "b"]
    );
    assert!(fetch_state_machine_names(Ok(None)).unwrap().is_empty());
    match fetch_state_machine_names(Err("denied".to_string())) {
        Err(ProcessingError::StateMachineFetchingError(message)) => assert_eq!(message, "denied"),
        other => panic!("unexpected: {:?}", other),
    }
}

#[test]
fn datasource_events_url_appends_events_and_replaces_the_query() {
    let url = Url::parse("https://api.hotpotato.com/v1/source7?limit=3&x=y#frag").unwrap();
    assert_eq!(
        datasource_events_url(&url).unwrap().unwrap(),
        "https://api.hotpotato.com/v1/source7/events?descending_order=true#frag"
    );
    let url = Url::parse("https://api.hotpotato.com").unwrap();
    assert_eq!(
        datasource_events_url(&url).unwrap().unwrap(),
        "https://api.hotpotato.com/events?descending_order=true"
    );
    let url = Url::parse("https://api.hotpotato.com/v1/source7/").unwrap();
    assert_eq!(
        datasource_events_url(&url).unwrap().unwrap(),
        "https://api.hotpotato.com/v1/source7//events?descending_order=true"
    );
}

#[test]
fn datasource_events_url_rejects_a_cannot_be_a_base_url() {
    let url = Url::parse("mailto:someone@hotpotato.com").unwrap();
    match datasource_events_url(&url) {
        Some(Err(ProcessingError::UrlParseFailure(message))) => assert_eq!(
            message,
            "data source events endpoint url is a cannot-be-a-base url."
        ),
        other => panic!("unexpected: {:?}", other),
    }
}

#[test]
fn latest_event_times_reads_iso8601() {
    let texts = vec![
        "2023-01-01T00:00:00Z".to_string(),
        "2023-01-01T01:00:01.5+01:00".to_string(),
    ];
    let read = latest_event_times(&texts).unwrap();
    assert_eq!(
        read,
        vec![
            Timestamp::from_unix_nanos(T),
            Timestamp::from_unix_nanos(T + 1_500_000_000)
        ]
    );
    assert!(latest_event_times(&vec![]).unwrap().is_empty());
}

#[test]
fn latest_event_times_fails_on_the_first_unreadable_time() {
    let texts = vec![
        "2023-01-01T00:00:00Z".to_string(),
        "yesterday".to_string(),
        "also bad".to_string(),
    ];
    match latest_event_times(&texts) {
        Err(ProcessingError::DatatimeParseFailure(message)) => {
            assert!(message.starts_with("Failed to parse datetime:\n"));
            let why = time::OffsetDateTime::parse(
                "yesterday",
                &time::format_description::well_known::Iso8601::DEFAULT,
            )
            .unwrap_err();
            assert_eq!(message, format!("Failed to parse datetime:\n{:?}", why));
        }
        other => panic!("unexpected: {:?}", other),
    }
}
