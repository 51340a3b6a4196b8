use async_nats::HeaderMap;
use nats_output::config::{Auth, ConnectOptions, JetStreamConfig, NatsOutputConfig};
use nats_output::endpoint::NatsFtOutputEndpoint;
use nats_output::errors::OutputError;
use nats_output::log::MemoryLog;
use nats_output::position::OutputPosition;

fn create_ft_test_config(server_url: String, stream_name: String) -> NatsOutputConfig {
    NatsOutputConfig {
        connection_config: ConnectOptions { server_url, auth: Auth::default() },
        subject: "test.ft.output".to_string(),
        headers: None,
        jetstream: Some(JetStreamConfig {
            stream_name,
            enable_fault_tolerance: true,
            max_age: None,
            max_bytes: None,
            max_messages: None,
        }),
    }
}

#[test]
fn test_fault_tolerant_endpoint_creation() {
    let config =
        create_ft_test_config("nats://localhost:4222".to_string(), "test_stream".to_string());
    let endpoint = NatsFtOutputEndpoint::new(config);
    assert!(endpoint.is_ok());

    let endpoint = endpoint.unwrap();
    assert!(endpoint.is_fault_tolerant());
}

#[test]
fn test_fault_tolerant_endpoint_requires_jetstream() {
    let mut config =
        create_ft_test_config("nats://localhost:4222".to_string(), "test_stream".to_string());
    config.jetstream = None;

    let endpoint = NatsFtOutputEndpoint::new(config);
    assert!(endpoint.is_err());
    assert!(matches!(endpoint.unwrap_err(), OutputError::MissingJetStreamConfig));
}

#[test]
fn test_fault_tolerant_endpoint_requires_ft_enabled() {
    let mut config =
        create_ft_test_config("nats://localhost:4222".to_string(), "test_stream".to_string());
    config.jetstream.as_mut().unwrap().enable_fault_tolerance = false;

    let endpoint = NatsFtOutputEndpoint::new(config);
    assert!(endpoint.is_err());
    assert!(matches!(endpoint.unwrap_err(), OutputError::FaultToleranceDisabled));
}

#[test]
fn test_output_position() {
    let mut pos = OutputPosition::new(42);
    assert_eq!(pos.step, 42);
    assert_eq!(pos.substep, 0);

    pos.next_substep();
    assert_eq!(pos.step, 42);
    assert_eq!(pos.substep, 1);
}

fn header_str(headers: &HeaderMap, name: &str) -> Option<String> {
    headers.get(name).map(|v| v.as_str().to_string())
}

#[test]
fn test_batch_scenario_two_records() {
    let config = create_ft_test_config("nats://localhost:4222".to_string(), "s".to_string());
    let mut ep = NatsFtOutputEndpoint::new(config).unwrap();
    ep.complete_connect(None);

    assert!(ep.batch_start(0).is_ok());
    assert!(ep.push_buffer(b"a").is_ok());
    assert!(ep.push_buffer(b"b").is_ok());

    let mut log = MemoryLog::new();
    assert!(ep.batch_end_into(&mut log).is_ok());

    assert_eq!(log.records.len(), 2);
    assert_eq!(log.records[0].subject, "test.ft.output");
    assert_eq!(log.records[0].payload, b"a".to_vec());
    assert_eq!(log.records[1].payload, b"b".to_vec());
    assert_eq!(header_str(&log.records[0].headers, "Feldera-Step").as_deref(), Some("0"));
    assert_eq!(header_str(&log.records[0].headers, "Feldera-Substep").as_deref(), Some("0"));
    assert_eq!(header_str(&log.records[1].headers, "Feldera-Step").as_deref(), Some("0"));
    assert_eq!(header_str(&log.records[1].headers, "Feldera-Substep").as_deref(), Some("1"));

    assert!(matches!(
        ep.batch_start(0),
        Err(OutputError::StepMismatch { expected: 1, got: 0 })
    ));
    assert!(matches!(
        ep.batch_start(2),
        Err(OutputError::StepMismatch { expected: 1, got: 2 })
    ));
    assert!(ep.batch_start(1).is_ok());
}

#[test]
fn test_push_key_with_headers_flushed() {
    let mut config = create_ft_test_config("nats://localhost:4222".to_string(), "s".to_string());
    config.headers = Some(vec![("Source".to_string(), "feldera".to_string())]);
    let mut ep = NatsFtOutputEndpoint::new(config).unwrap();
    ep.complete_connect(None);

    assert!(ep.batch_start(0).is_ok());
    let extra = vec![("Custom-Header".to_string(), Some(b"custom_value".to_vec()))];
    assert!(ep.push_key(Some(b"test_key"), Some(b"test_value"), &extra).is_ok());

    let mut log = MemoryLog::new();
    assert!(ep.batch_end_into(&mut log).is_ok());

    assert_eq!(log.records.len(), 1);
    assert_eq!(log.records[0].payload, b"test_key:test_value".to_vec());
    let headers = &log.records[0].headers;
    assert_eq!(header_str(headers, "Feldera-Step").as_deref(), Some("0"));
    assert_eq!(header_str(headers, "Feldera-Substep").as_deref(), Some("0"));
    assert_eq!(header_str(headers, "Source").as_deref(), Some("feldera"));
    assert_eq!(header_str(headers, "Custom-Header").as_deref(), Some("custom_value"));
}

#[test]
fn test_caller_header_overrides_configured() {
    let mut config = create_ft_test_config("nats://localhost:4222".to_string(), "s".to_string());
    config.headers = Some(vec![("Source".to_string(), "configured".to_string())]);
    let mut ep = NatsFtOutputEndpoint::new(config).unwrap();
    ep.complete_connect(None);

    assert!(ep.batch_start(0).is_ok());
    let extra = vec![("Source".to_string(), Some(b"caller".to_vec()))];
    assert!(ep.push_key(None, Some(b"v"), &extra).is_ok());

    let mut log = MemoryLog::new();
    assert!(ep.batch_end_into(&mut log).is_ok());
    assert_eq!(header_str(&log.records[0].headers, "Source").as_deref(), Some("caller"));
}

#[test]
fn test_lifecycle_protocol_errors() {
    let config = create_ft_test_config("nats://localhost:4222".to_string(), "s".to_string());
    let mut ep = NatsFtOutputEndpoint::new(config).unwrap();

    assert!(matches!(ep.batch_start(0), Err(OutputError::NotConnected)));
    assert!(matches!(ep.push_buffer(b"x"), Err(OutputError::NotInBatch)));
    let mut log = MemoryLog::new();
    assert!(matches!(ep.batch_end_into(&mut log), Err(OutputError::NotInBatch)));

    ep.complete_connect(None);
    assert!(matches!(
        ep.batch_start(5),
        Err(OutputError::StepMismatch { expected: 0, got: 5 })
    ));
    assert!(ep.batch_start(0).is_ok());
    assert!(matches!(ep.batch_start(1), Err(OutputError::BatchAlreadyOpen)));
}

#[test]
fn test_flush_failure_keeps_acknowledged_records() {
    let config = create_ft_test_config("nats://localhost:4222".to_string(), "s".to_string());
    let mut ep = NatsFtOutputEndpoint::new(config).unwrap();
    ep.complete_connect(None);

    assert!(ep.batch_start(0).is_ok());
    assert!(ep.push_buffer(b"one").is_ok());
    assert!(ep.push_buffer(b"two").is_ok());
    assert!(ep.push_buffer(b"three").is_ok());

    let mut log = MemoryLog::failing_from(1);
    assert!(matches!(ep.batch_end_into(&mut log), Err(OutputError::Publish)));

    assert_eq!(log.records.len(), 1);
    assert_eq!(log.records[0].payload, b"one".to_vec());
    assert!(ep.buffered_records().is_empty());
    assert!(matches!(ep.batch_start(1), Err(OutputError::BatchAlreadyOpen)));
}

#[test]
fn test_batch_end_apply_success_and_failure() {
    let config = create_ft_test_config("nats://localhost:4222".to_string(), "s".to_string());
    let mut ep = NatsFtOutputEndpoint::new(config).unwrap();
    ep.complete_connect(None);

    assert!(ep.batch_start(0).is_ok());
    assert!(ep.push_buffer(b"a").is_ok());
    assert!(ep.push_buffer(b"b").is_ok());
    assert_eq!(ep.buffered_records().len(), 2);
    assert!(ep.batch_end_apply(2).is_ok());
    assert!(ep.buffered_records().is_empty());

    assert!(ep.batch_start(1).is_ok());
    assert!(ep.push_buffer(b"c").is_ok());
    assert!(matches!(ep.batch_end_apply(0), Err(OutputError::Publish)));
    assert!(ep.buffered_records().is_empty());
}

#[test]
fn test_recovery_resume_step_from_headers() {
    let config = create_ft_test_config("nats://localhost:4222".to_string(), "s".to_string());
    let mut ep = NatsFtOutputEndpoint::new(config).unwrap();

    let mut headers = HeaderMap::new();
    headers.insert("Feldera-Step", "41");
    ep.complete_connect(Some(&headers));
    assert!(matches!(
        ep.batch_start(0),
        Err(OutputError::StepMismatch { expected: 42, got: 0 })
    ));
    assert!(ep.batch_start(42).is_ok());
}

#[test]
fn test_recovery_defaults_to_zero() {
    let config = create_ft_test_config("nats://localhost:4222".to_string(), "s".to_string());

    // No record on the subject at all.
    let mut ep = NatsFtOutputEndpoint::new(config.clone()).unwrap();
    ep.complete_connect(None);
    assert!(ep.batch_start(0).is_ok());

    // A record without the step header.
    let mut ep = NatsFtOutputEndpoint::new(config.clone()).unwrap();
    let headers = HeaderMap::new();
    ep.complete_connect(Some(&headers));
    assert!(ep.batch_start(0).is_ok());

    // A record whose step header does not parse.
    let mut ep = NatsFtOutputEndpoint::new(config).unwrap();
    let mut headers = HeaderMap::new();
    headers.insert("Feldera-Step", "not-a-number");
    ep.complete_connect(Some(&headers));
    assert!(ep.batch_start(0).is_ok());
}

#[test]
fn test_restart_recovery_round_trip() {
    // One endpoint publishes steps 0 and 1; a fresh endpoint reading the last
    // record's headers resumes at step 2.
    let config = create_ft_test_config("nats://localhost:4222".to_string(), "s".to_string());
    let mut log = MemoryLog::new();

    let mut first = NatsFtOutputEndpoint::new(config.clone()).unwrap();
    first.complete_connect(None);
    assert!(first.batch_start(0).is_ok());
    assert!(first.push_buffer(b"first_endpoint_message").is_ok());
    assert!(first.batch_end_into(&mut log).is_ok());
    assert!(first.batch_start(1).is_ok());
    assert!(first.push_buffer(b"second_step_message").is_ok());
    assert!(first.batch_end_into(&mut log).is_ok());

    let mut second = NatsFtOutputEndpoint::new(config).unwrap();
    let last = log.records.last().unwrap();
    second.complete_connect(Some(&last.headers));
    assert!(second.batch_start(2).is_ok());
    assert!(second.push_buffer(b"resumed_message").is_ok());
    assert!(second.batch_end_into(&mut log).is_ok());
    assert_eq!(log.len(), 3);
}

#[test]
fn test_push_key_rejects_bad_input() {
    let config = create_ft_test_config("nats://localhost:4222".to_string(), "s".to_string());
    let mut ep = NatsFtOutputEndpoint::new(config).unwrap();
    ep.complete_connect(None);
    assert!(ep.batch_start(0).is_ok());

    let no_extra: Vec<(String, Option<Vec<u8>>)> = Vec::new();
    assert!(matches!(
        ep.push_key(None, None, &no_extra),
        Err(OutputError::MissingKeyAndValue)
    ));
    assert!(matches!(
        ep.push_key(Some(&[0xff, 0xfe]), Some(b"v"), &no_extra),
        Err(OutputError::InvalidKey)
    ));
    assert!(matches!(
        ep.push_key(Some(b"k"), Some(&[0xff]), &no_extra),
        Err(OutputError::InvalidValue)
    ));
    let bad_header = vec![("H".to_string(), Some(vec![0xffu8]))];
    assert!(matches!(
        ep.push_key(Some(b"k"), Some(b"v"), &bad_header),
        Err(OutputError::InvalidHeaderValue)
    ));

    // Rejected pushes leave the batch untouched; a good push still lands at
    // substep 0.
    assert!(ep.push_buffer(b"ok").is_ok());
    let mut log = MemoryLog::new();
    assert!(ep.batch_end_into(&mut log).is_ok());
    assert_eq!(log.records.len(), 1);
    assert_eq!(header_str(&log.records[0].headers, "Feldera-Substep").as_deref(), Some("0"));
}

#[test]
fn test_max_buffer_size_and_span() {
    let config = create_ft_test_config("nats://localhost:4222".to_string(), "stream_x".to_string());
    let ep = NatsFtOutputEndpoint::new(config).unwrap();
    assert_eq!(ep.max_buffer_size_bytes(), 1_000_000);
    let span = ep.span();
    assert!(span.ft);
    assert_eq!(span.subject, "test.ft.output");
    assert_eq!(span.stream, "stream_x");
    assert_eq!(span.server.as_deref(), Some("nats://localhost:4222"));

    let free = nats_output::endpoint::span("subj", "str");
    assert!(free.ft);
    assert_eq!(free.subject, "subj");
    assert_eq!(free.stream, "str");
}

#[test]
fn test_multiple_steps_into_log() {
    let config = create_ft_test_config("nats://localhost:4222".to_string(), "s".to_string());
    let mut ep = NatsFtOutputEndpoint::new(config).unwrap();
    ep.complete_connect(None);
    let mut log = MemoryLog::new();

    for step in 0..3u64 {
        assert!(ep.batch_start(step).is_ok());
        let first = format!("step_{}_msg_1", step);
        let second = format!("step_{}_msg_2", step);
        assert!(ep.push_buffer(first.as_bytes()).is_ok());
        assert!(ep.push_buffer(second.as_bytes()).is_ok());
        assert!(ep.batch_end_into(&mut log).is_ok());
    }

    assert_eq!(log.len(), 6);
    assert_eq!(log.records[4].payload, b"step_2_msg_1".to_vec());
    let last = &log.records[5];
    assert_eq!(last.payload, b"step_2_msg_2".to_vec());
    assert_eq!(header_str(&last.headers, "Feldera-Step").as_deref(), Some("2"));
    assert_eq!(header_str(&last.headers, "Feldera-Substep").as_deref(), Some("1"));
}
