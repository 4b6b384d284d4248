use simple_chat_backend::telemetry::{tally_deliveries, ServiceTelemetry};

#[test]
fn counters_start_at_zero() {
    let telemetry = ServiceTelemetry::default();
    let counters = telemetry.counters();
    assert_eq!(counters.auth_requests_total, 0);
    assert_eq!(counters.active_websocket_connections, 0);
    let inputs = telemetry.indicator_inputs();
    assert_eq!(inputs.auth_total, 0);
    assert_eq!(inputs.delivery_attempts, 0);
}

#[test]
fn auth_and_connection_counters() {
    let mut telemetry = ServiceTelemetry::default();
    telemetry.record_auth(true);
    telemetry.record_auth(false);
    telemetry.record_auth(true);
    telemetry.record_websocket_connect(true);
    telemetry.record_websocket_connect(true);
    telemetry.record_websocket_connect(false);
    telemetry.record_websocket_disconnect();
    let counters = telemetry.counters();
    assert_eq!(counters.auth_requests_total, 3);
    assert_eq!(counters.auth_failures_total, 1);
    assert_eq!(counters.websocket_connect_attempts_total, 3);
    assert_eq!(counters.websocket_connect_failures_total, 1);
    assert_eq!(counters.active_websocket_connections, 1);
    let inputs = telemetry.indicator_inputs();
    assert_eq!((inputs.auth_succeeded, inputs.auth_total), (2, 3));
    assert_eq!((inputs.connect_succeeded, inputs.connect_total), (2, 3));
}

#[test]
fn open_connections_never_read_below_zero() {
    let mut telemetry = ServiceTelemetry::default();
    telemetry.record_websocket_disconnect();
    telemetry.record_websocket_disconnect();
    assert_eq!(telemetry.counters().active_websocket_connections, 0);
    telemetry.record_websocket_connect(true);
    assert_eq!(telemetry.counters().active_websocket_connections, 0);
}

#[test]
fn message_and_broadcast_counters() {
    let mut telemetry = ServiceTelemetry::default();
    telemetry.record_message_accepted();
    telemetry.record_message_rejected();
    telemetry.record_message_rejected();
    telemetry.record_runtime_error();
    let (delivered, failed) = tally_deliveries(&vec![true, false, true, true]);
    assert_eq!((delivered, failed), (3, 1));
    telemetry.record_broadcast(4, delivered, failed);
    let counters = telemetry.counters();
    assert_eq!(counters.websocket_messages_total, 1);
    assert_eq!(counters.websocket_rejected_messages_total, 2);
    assert_eq!(counters.websocket_runtime_errors_total, 1);
    assert_eq!(counters.broadcast_attempts_total, 1);
    assert_eq!(counters.broadcast_targets_total, 4);
    assert_eq!(counters.broadcast_deliveries_total, 3);
    assert_eq!(counters.broadcast_failures_total, 1);
    let inputs = telemetry.indicator_inputs();
    assert_eq!((inputs.deliveries, inputs.delivery_attempts), (3, 4));
}

#[test]
fn open_connections_follow_connects_and_disconnects() {
    let mut telemetry = ServiceTelemetry::default();
    telemetry.record_websocket_disconnect();
    telemetry.record_websocket_disconnect();
    telemetry.record_websocket_connect(true);
    assert_eq!(telemetry.counters().active_websocket_connections, 0);
    telemetry.record_websocket_connect(true);
    telemetry.record_websocket_connect(false);
    telemetry.record_auth(true);
    telemetry.record_websocket_connect(true);
    assert_eq!(telemetry.counters().active_websocket_connections, 1);
    telemetry.record_websocket_connect(true);
    assert_eq!(telemetry.counters().active_websocket_connections, 2);
    let before = telemetry.counters();
    telemetry.record_websocket_disconnect();
    let after = telemetry.counters();
    assert_eq!(after.active_websocket_connections, 1);
    assert_eq!(after.websocket_connect_attempts_total, before.websocket_connect_attempts_total);
    assert_eq!(after.auth_requests_total, before.auth_requests_total);
}
