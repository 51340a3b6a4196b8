use nats_output::config::{Auth, ConnectOptions, NatsOutputConfig};
use nats_output::errors::OutputError;
use nats_output::nonft::NatsOutputEndpoint;

fn create_test_config(server_url: String) -> NatsOutputConfig {
    NatsOutputConfig {
        connection_config: ConnectOptions { server_url, auth: Auth::default() },
        subject: "test.output".to_string(),
        headers: None,
        jetstream: None,
    }
}

#[test]
fn test_endpoint_creation() {
    let config = create_test_config("nats://localhost:4222".to_string());
    let endpoint = NatsOutputEndpoint::new(config);
    assert!(endpoint.is_ok());

    let endpoint = endpoint.unwrap();
    assert!(!endpoint.is_fault_tolerant());
}

#[test]
fn test_nats_output_endpoint_creation() {
    let config = NatsOutputConfig {
        connection_config: ConnectOptions {
            server_url: "nats://localhost:4222".to_string(),
            auth: Auth::default(),
        },
        subject: "test.subject".to_string(),
        headers: None,
        jetstream: None,
    };

    let endpoint = NatsOutputEndpoint::new(config);
    assert!(endpoint.is_ok());

    let endpoint = endpoint.unwrap();
    assert!(!endpoint.is_fault_tolerant());
    assert_eq!(endpoint.max_buffer_size_bytes(), 1_000_000);
}

#[test]
fn test_nats_output_endpoint_with_headers() {
    let headers = vec![
        ("content-type".to_string(), "application/json".to_string()),
        ("source".to_string(), "feldera".to_string()),
    ];

    let config = NatsOutputConfig {
        connection_config: ConnectOptions {
            server_url: "nats://localhost:4222".to_string(),
            auth: Auth::default(),
        },
        subject: "test.subject.with.headers".to_string(),
        headers: Some(headers),
        jetstream: None,
    };

    let endpoint = NatsOutputEndpoint::new(config);
    assert!(endpoint.is_ok());
}

#[test]
fn test_batch_operations() {
    let config = NatsOutputConfig {
        connection_config: ConnectOptions {
            server_url: "nats://localhost:4222".to_string(),
            auth: Auth::default(),
        },
        subject: "test.batch".to_string(),
        headers: None,
        jetstream: None,
    };

    let mut endpoint = NatsOutputEndpoint::new(config).unwrap();

    // Batch operations succeed without a connection for the
    // non-fault-tolerant endpoint.
    assert!(endpoint.batch_start(0).is_ok());
    assert!(endpoint.batch_end().is_ok());
}

#[test]
fn test_push_operations_without_connection() {
    let config = NatsOutputConfig {
        connection_config: ConnectOptions {
            server_url: "nats://localhost:4222".to_string(),
            auth: Auth::default(),
        },
        subject: "test.push".to_string(),
        headers: None,
        jetstream: None,
    };

    let endpoint = NatsOutputEndpoint::new(config).unwrap();

    // These fail without a connection.
    let buffer = b"test message";
    assert!(endpoint.push_buffer(buffer).is_err());

    let key = b"test_key";
    let value = b"test_value";
    assert!(endpoint.push_key(Some(key), Some(value)).is_err());
}

#[test]
fn test_passthrough_payloads_after_connect() {
    let config = create_test_config("nats://localhost:4222".to_string());
    let mut ep = NatsOutputEndpoint::new(config).unwrap();
    ep.complete_connect();

    assert_eq!(ep.push_buffer(b"Hello, NATS!").unwrap(), b"Hello, NATS!".to_vec());
    assert_eq!(ep.push_key(Some(b"key1"), Some(b"value1")).unwrap(), b"key1:value1".to_vec());
    assert!(matches!(ep.push_key(None, None), Err(OutputError::MissingKeyAndValue)));

    let span = ep.span();
    assert!(!span.ft);
    assert_eq!(span.subject, "test.output");
}
