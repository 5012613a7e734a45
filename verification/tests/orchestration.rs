use pipeline_trigger::entities::EventPayload;
use pipeline_trigger::events::{
    process_input_event, EventProcessingError, Request, RequestDetail, RequestPayload,
    RequestType,
};
use pipeline_trigger::pipeline_effects::gathering::remote::{
    data_source_endpoint, normalized_data_source_model, pipeline_endpoint,
};
use pipeline_trigger::pipeline_effects::gathering::{
    check_permit_content, check_success_time, data_pipeline_from_model, gate_pipeline_event,
    DataSourceRestModel, PipelineRestModel, _get_trigger_permit, _map_str_to_url,
    _map_to_offsetdatetime,
};
use pipeline_trigger::pipeline_effects::{
    generate_pipeline_effects, DataPipeline, EffectsStep, PipelineTriggerPermit, ProcessingError,
    TriggerPermitType,
};
use pipeline_trigger::rendering::debug_strings;
use pipeline_trigger::timestamp::Timestamp;
use url::Url;

const T: i128 = 1_672_531_200_000_000_000;

fn model(trigger_rule: &str, token: Option<&str>, last: Option<&str>) -> PipelineRestModel {
    PipelineRestModel {
        id: "pipA".to_string(),
        description: "pipeline: pipA".to_string(),
        last_success_time: last.map(|s| s.to_string()),
        source_dependencies: vec!["https://api.x/srcA".to_string()],
        trigger_rule: trigger_rule.to_string(),
        callback_token: token.map(|s| s.to_string()),
    }
}

fn all_errors() -> Vec<ProcessingError> {
    let m = || "a \"quoted\"\nmessage\\ with é".to_string();
    vec![
        ProcessingError::UnrecognizedTriggerType(m()),
        ProcessingError::MissingSuccessTime(m()),
        ProcessingError::SuccessTimeConflict(m()),
        ProcessingError::MissingPermitContent(m()),
        ProcessingError::PermitContentConflict(m()),
        ProcessingError::DatatimeParseFailure(m()),
        ProcessingError::UrlParseFailure(m()),
        ProcessingError::ModelFetchFailure(m()),
        ProcessingError::MissingPipelinePermit(m()),
        ProcessingError::StateMachineFetchingError(m()),
        ProcessingError::RelayTaskSuccessError(m()),
        ProcessingError::RelayTaskHeartbeatError(m()),
        ProcessingError::PipelineStateMachineMissing(m()),
    ]
}

#[test]
fn describe_prints_what_debug_prints() {
    for error in all_errors() {
        assert_eq!(error.describe(), format!("{:?}", error));
    }
    assert_eq!(
        ProcessingError::UrlParseFailure("x".to_string()).describe(),
        "UrlParseFailure(\"x\")"
    );
}

#[test]
fn debug_strings_prints_what_debug_prints() {
    let none: Vec<String> = vec![];
    assert_eq!(debug_strings(&none), "[]");
    let one = vec!["a\"b".to_string()];
    assert_eq!(debug_strings(&one), format!("{:?}", one));
    let three = vec!["a".to_string(), "".to_string(), "c\nd".to_string()];
    assert_eq!(debug_strings(&three), "[\"a\", \"\", \"c\\nd\"]");
}

fn sum_up(outcomes: Vec<Result<(), ProcessingError>>) -> Result<(), String> {
    match generate_pipeline_effects(Ok(vec![])) {
        EffectsStep::TriggerEach { pipelines, then } => {
            assert!(pipelines.is_empty());
            then.accept(&outcomes)
        }
        other => panic!("unexpected: {:?}", other),
    }
}

#[test]
fn effects_without_failure_succeed() {
    assert_eq!(sum_up(vec![]), Ok(()));
    assert_eq!(sum_up(vec![Ok(()), Ok(())]), Ok(()));
}

#[test]
fn failed_resolution_fails_the_invocation_and_triggers_nothing() {
    for error in all_errors() {
        let expected = format!("{:?}", error);
        match generate_pipeline_effects(Err(error)) {
            EffectsStep::Failed(why) => assert_eq!(why, expected),
            other => panic!("unexpected: {:?}", other),
        }
    }
}

#[test]
fn resolved_pipelines_are_tried_in_their_order() {
    let pipeline = |id: &str| DataPipeline {
        id: id.to_string(),
        description: "".to_string(),
        last_success_time: None,
        permit: TriggerPermitType::Lenient(None),
        dependency_urls: vec![],
    };
    match generate_pipeline_effects(Ok(vec![pipeline("pipB"), pipeline("pipA")])) {
        EffectsStep::TriggerEach { pipelines, then } => {
            let ids: Vec<&str> = pipelines.iter().map(|p| p.id.as_str()).collect();
            assert_eq!(ids, vec!["pipB", "pipA"]);
            let outcomes = vec![
                Ok(()),
                Err(ProcessingError::MissingSuccessTime("no time".to_string())),
            ];
            assert_eq!(
                then.accept(&outcomes),
                Err(
                    "Not all relevant pipelines were successfully triggered.\n[\"MissingSuccessTime(\\\"no time\\\")\"]"
                        .to_string()
                )
            );
        }
        other => panic!("unexpected: {:?}", other),
    }
}

#[test]
fn effects_list_every_failure_in_order() {
    let outcomes = vec![
        Err(ProcessingError::MissingSuccessTime("first".to_string())),
        Ok(()),
        Err(ProcessingError::RelayTaskSuccessError("third".to_string())),
    ];
    let error_strings = vec![
        format!("{:?}", ProcessingError::MissingSuccessTime("first".to_string())),
        format!("{:?}", ProcessingError::RelayTaskSuccessError("third".to_string())),
    ];
    let expected = format!(
        "Not all relevant pipelines were successfully triggered.\n{:?}",
        error_strings
    );
    assert_eq!(sum_up(outcomes), Err(expected));
    assert_eq!(
        sum_up(vec![Err(ProcessingError::UrlParseFailure("u".to_string()))]),
        Err(
            "Not all relevant pipelines were successfully triggered.\n[\"UrlParseFailure(\\\"u\\\")\"]"
                .to_string()
        )
    );
}

#[test]
fn trigger_permit_follows_the_trigger_rule() {
    match _get_trigger_permit(&model("LENIENT", None, None)).unwrap() {
        TriggerPermitType::Lenient(None) => {}
        other => panic!("unexpected: {:?}", other),
    }
    match _get_trigger_permit(&model("STRICT", Some("tok1"), None)).unwrap() {
        TriggerPermitType::Strict(Some(permit)) => {
            assert_eq!(permit.content, "tok1");
            assert!(!permit.is_expired);
        }
        other => panic!("unexpected: {:?}", other),
    }
    for rule in ["WEIRD", "lenient", "", "STRICT "] {
        match _get_trigger_permit(&model(rule, Some("tok1"), None)) {
            Err(ProcessingError::UnrecognizedTriggerType(message)) => {
                assert_eq!(message, "Error: Unrecognized trigger permit type.")
            }
            other => panic!("unexpected: {:?}", other),
        }
    }
}

#[test]
fn stored_success_time_is_parsed_where_present() {
    assert_eq!(_map_to_offsetdatetime(&None).unwrap(), None);
    assert_eq!(
        _map_to_offsetdatetime(&Some("2023-01-01T00:00:00Z".to_string())).unwrap(),
        Some(Timestamp::from_unix_nanos(T))
    );
    assert_eq!(
        _map_to_offsetdatetime(&Some("2023-01-01T02:00:00+02:00".to_string())).unwrap(),
        Some(Timestamp::from_unix_nanos(T))
    );
    match _map_to_offsetdatetime(&Some("not a time".to_string())) {
        Err(ProcessingError::DatatimeParseFailure(message)) => {
            assert_eq!(message, "Failed to parse datetime.")
        }
        other => panic!("unexpected: {:?}", other),
    }
}

#[test]
fn dependency_urls_must_all_parse() {
    let good = vec!["https://api.x/srcA".to_string(), "blah://h".to_string()];
    assert_eq!(
        _map_str_to_url(&good).unwrap(),
        vec![
            Url::parse("https://api.x/srcA").unwrap(),
            Url::parse("blah://h").unwrap()
        ]
    );
    assert!(_map_str_to_url(&vec![]).unwrap().is_empty());
    let bad = vec!["https://api.x/srcA".to_string(), "/relative".to_string()];
    match _map_str_to_url(&bad) {
        Err(ProcessingError::UrlParseFailure(message)) => {
            assert_eq!(message, "Failed to convert strings to urls")
        }
        other => panic!("unexpected: {:?}", other),
    }
}

#[test]
fn trigger_rule_is_looked_at_before_time_and_dependencies() {
    let mut m = model("WEIRD", None, Some("not a time"));
    m.source_dependencies = vec!["/relative".to_string()];
    assert!(matches!(
        data_pipeline_from_model(m),
        Err(ProcessingError::UnrecognizedTriggerType(_))
    ));
    let mut m = model("STRICT", None, Some("not a time"));
    m.source_dependencies = vec!["/relative".to_string()];
    assert!(matches!(
        data_pipeline_from_model(m),
        Err(ProcessingError::DatatimeParseFailure(_))
    ));
    let mut m = model("STRICT", None, None);
    m.source_dependencies = vec!["/relative".to_string()];
    assert!(matches!(
        data_pipeline_from_model(m),
        Err(ProcessingError::UrlParseFailure(_))
    ));
}

#[test]
fn pipeline_event_happy_path() {
    let m = model("LENIENT", Some("tok1"), Some("2023-01-01T00:00:00Z"));
    let pipeline =
        gate_pipeline_event(Timestamp::from_unix_nanos(T), &"tok1".to_string(), m).unwrap();
    assert_eq!(pipeline.id, "pipA");
    assert_eq!(pipeline.last_success_time, Some(Timestamp::from_unix_nanos(T)));
    match pipeline.permit {
        TriggerPermitType::Lenient(Some(permit)) => assert_eq!(permit.content, "tok1"),
        other => panic!("unexpected: {:?}", other),
    }
}

#[test]
fn pipeline_event_success_time_mismatch() {
    let m = model("LENIENT", Some("tok1"), Some("2023-01-01T00:00:01Z"));
    assert!(matches!(
        gate_pipeline_event(Timestamp::from_unix_nanos(T), &"tok1".to_string(), m),
        Err(ProcessingError::SuccessTimeConflict(_))
    ));
}

#[test]
fn pipeline_event_permit_mismatch() {
    let m = model("LENIENT", Some("tokZ"), Some("2023-01-01T00:00:00Z"));
    assert!(matches!(
        gate_pipeline_event(Timestamp::from_unix_nanos(T), &"tok1".to_string(), m),
        Err(ProcessingError::PermitContentConflict(_))
    ));
}

#[test]
fn pipeline_event_unknown_trigger_rule() {
    let m = model("WEIRD", Some("tok1"), Some("2023-01-01T00:00:00Z"));
    assert!(matches!(
        gate_pipeline_event(Timestamp::from_unix_nanos(T), &"tok1".to_string(), m),
        Err(ProcessingError::UnrecognizedTriggerType(_))
    ));
}

#[test]
fn pipeline_event_checks_come_in_order() {
    let at = Timestamp::from_unix_nanos(T);
    let token = "tok1".to_string();
    assert!(matches!(
        gate_pipeline_event(at, &token, model("WEIRD", None, Some("not a time"))),
        Err(ProcessingError::DatatimeParseFailure(_))
    ));
    assert!(matches!(
        gate_pipeline_event(at, &token, model("WEIRD", None, None)),
        Err(ProcessingError::MissingSuccessTime(_))
    ));
    assert!(matches!(
        gate_pipeline_event(at, &token, model("WEIRD", None, Some("2023-01-01T00:00:01Z"))),
        Err(ProcessingError::SuccessTimeConflict(_))
    ));
    assert!(matches!(
        gate_pipeline_event(at, &token, model("STRICT", None, Some("2023-01-01T00:00:00Z"))),
        Err(ProcessingError::MissingPermitContent(_))
    ));
    let mut m = model("STRICT", Some("tok1"), Some("2023-01-01T00:00:00Z"));
    m.source_dependencies = vec!["/relative".to_string()];
    assert!(matches!(
        gate_pipeline_event(at, &token, m),
        Err(ProcessingError::UrlParseFailure(_))
    ));
}

#[test]
fn catalog_endpoints_are_built_from_the_prefix() {
    assert_eq!(
        data_source_endpoint("srcA", "https://api.hotpotato.com/v1/").unwrap().unwrap(),
        "https://api.hotpotato.com/v1/data-sources/srcA"
    );
    assert_eq!(
        pipeline_endpoint("pip A", "https://api.hotpotato.com").unwrap().unwrap(),
        "https://api.hotpotato.com/pipelines/pip%20A"
    );
    assert!(matches!(
        pipeline_endpoint("pipA", "mailto:x@y.z"),
        Some(Err(ProcessingError::UrlParseFailure(_)))
    ));
}

#[test]
fn data_source_model_names_its_dependents_by_id() {
    let normalized = normalized_data_source_model(DataSourceRestModel {
        id: "srcA".to_string(),
        description: "Some data source description".to_string(),
        dependent_pipelines: vec![
            "/pipelines/pipA".to_string(),
            "pipB".to_string(),
            "https://api.x/pipelines/pipC".to_string(),
        ],
    });
    assert_eq!(normalized.id, "srcA");
    assert_eq!(normalized.description, "Some data source description");
    assert_eq!(normalized.dependent_pipelines, vec!["pipA", "pipB", "pipC"]);
}

fn request(creator_type: RequestType, token: Option<&str>, success: Option<&str>) -> Request {
    Request {
        source: "catalog".to_string(),
        event_id: "event-1".to_string(),
        detail: RequestDetail {
            creator_type,
            creator_id: "creator-1".to_string(),
            payload: RequestPayload {
                callback_token: token.map(|s| s.to_string()),
                success_time: success.map(|s| s.to_string()),
                event_time: "2023-01-01T00:00:00Z".to_string(),
            },
        },
    }
}

#[test]
fn data_source_request_becomes_a_data_source_event() {
    let event = process_input_event(&request(RequestType::DataSource, None, None)).unwrap();
    assert_eq!(event.id, "event-1");
    assert_eq!(event.event_time, Timestamp::from_unix_nanos(T));
    match event.payload {
        EventPayload::DataSource { id } => assert_eq!(id, "creator-1"),
        other => panic!("unexpected: {:?}", other),
    }
}

#[test]
fn pipeline_request_becomes_a_pipeline_event() {
    let event = process_input_event(&request(
        RequestType::Pipeline,
        Some("tok1"),
        Some("2023-01-01T00:00:01Z"),
    ))
    .unwrap();
    match event.payload {
        EventPayload::DataPipeline {
            id,
            success_time,
            callback_token,
        } => {
            assert_eq!(id, "creator-1");
            assert_eq!(success_time, Timestamp::from_unix_nanos(T + 1_000_000_000));
            assert_eq!(callback_token, "tok1");
        }
        other => panic!("unexpected: {:?}", other),
    }
}

#[test]
fn pipeline_request_needs_success_time_and_callback_token() {
    for (token, success) in [
        (None, Some("2023-01-01T00:00:01Z")),
        (Some("tok1"), None),
        (None, None),
    ] {
        assert!(matches!(
            process_input_event(&request(RequestType::Pipeline, token, success)),
            Err(EventProcessingError::EventValidationError(_))
        ));
    }
}

#[test]
fn request_times_must_be_iso8601() {
    let mut bad_event_time = request(RequestType::DataSource, None, None);
    bad_event_time.detail.payload.event_time = "noon".to_string();
    assert!(matches!(
        process_input_event(&bad_event_time),
        Err(EventProcessingError::EventTimeConversionError(_))
    ));
    assert!(matches!(
        process_input_event(&request(RequestType::Pipeline, Some("tok1"), Some("noon"))),
        Err(EventProcessingError::EventTimeConversionError(_))
    ));
}

#[test]
fn success_time_must_be_stored_and_be_the_events() {
    let at = |n: i128| Timestamp::from_unix_nanos(n);
    assert!(check_success_time(Some(at(T)), at(T)).is_ok());
    match check_success_time(None, at(T)) {
        Err(ProcessingError::MissingSuccessTime(message)) => assert_eq!(
            message,
            "Last success time should have been stored; found nothing."
        ),
        other => panic!("unexpected: {:?}", other),
    }
    match check_success_time(Some(at(T + 1)), at(T)) {
        Err(ProcessingError::SuccessTimeConflict(message)) => assert_eq!(
            message,
            "Conflict between provided success time and stored success time."
        ),
        other => panic!("unexpected: {:?}", other),
    }
}

#[test]
fn permit_must_be_stored_and_hold_the_callback_token() {
    let stored = |token: &str| {
        Some(PipelineTriggerPermit {
            content: token.to_string(),
            is_expired: false,
        })
    };
    let token = "tok1".to_string();
    assert!(check_permit_content(&TriggerPermitType::Lenient(stored("tok1")), &token).is_ok());
    assert!(check_permit_content(&TriggerPermitType::Strict(stored("tok1")), &token).is_ok());
    match check_permit_content(&TriggerPermitType::Lenient(None), &token) {
        Err(ProcessingError::MissingPermitContent(message)) => assert_eq!(
            message,
            "Permit content should have been stored; found nothing."
        ),
        other => panic!("unexpected: {:?}", other),
    }
    match check_permit_content(&TriggerPermitType::Strict(stored("tok")), &token) {
        Err(ProcessingError::PermitContentConflict(message)) => assert_eq!(
            message,
            "Conflict between provided permit content and stored permit content."
        ),
        other => panic!("unexpected: {:?}", other),
    }
}

#[test]
fn timestamps_are_ordered_as_instants() {
    let at = |n: i128| Timestamp::from_unix_nanos(n);
    assert!(at(T).at_or_after(&at(T)));
    assert!(at(T + 1).at_or_after(&at(T)));
    assert!(!at(T - 1).at_or_after(&at(T)));
    assert!(at(-5).at_or_after(&at(-6)));
}
