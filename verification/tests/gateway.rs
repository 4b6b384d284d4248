use simple_chat_backend::gateway::{
    gateway_connect_accepted, gateway_post_status, gateway_step, GatewayEvent, GatewayStep,
};

#[test]
fn gateway_admits_below_400() {
    assert!(gateway_connect_accepted(200));
    assert!(gateway_connect_accepted(399));
    assert!(!gateway_connect_accepted(400));
    assert!(!gateway_connect_accepted(401));
}

#[test]
fn gateway_frame_steps() {
    match gateway_step(GatewayEvent::Text("{\"text\":\"hi\"}".to_string())) {
        GatewayStep::Forward(text) => assert_eq!(text, "{\"text\":\"hi\"}"),
        other => panic!("expected forwarding, got {other:?}"),
    }
    assert!(matches!(gateway_step(GatewayEvent::Other), GatewayStep::Ignore));
    assert!(matches!(gateway_step(GatewayEvent::Close), GatewayStep::Stop));
    assert!(matches!(gateway_step(GatewayEvent::Failed), GatewayStep::Stop));
    assert!(matches!(gateway_step(GatewayEvent::HandlerFailed), GatewayStep::Stop));
}

#[test]
fn gateway_post_statuses() {
    assert_eq!(gateway_post_status(false, true), 400);
    assert_eq!(gateway_post_status(false, false), 400);
    assert_eq!(gateway_post_status(true, true), 200);
    assert_eq!(gateway_post_status(true, false), 410);
}
