use areum_tools::discord::error::ErrorKind;
use areum_tools::discord::gateway::{fatal_close_error, gateway_step, GatewayAction, GatewayEvent, RETENTION_DAYS};

#[test]
fn fatal_close_maps_to_non_retryable_auth_error() {
    let err = fatal_close_error(true, "FatallyClosed");
    assert_eq!(err.kind, ErrorKind::Auth);
    assert!(err.message.contains("will not retry"));
}

#[test]
fn unexpected_stream_end_maps_to_network_error() {
    let err = fatal_close_error(false, "Active");
    assert_eq!(err.kind, ErrorKind::Network);
    assert_eq!(err.message, "gateway stream ended unexpectedly (state: Active)");
}

#[test]
fn gateway_loop_stops_only_on_terminate_or_stream_end() {
    assert_eq!(gateway_step(GatewayEvent::Terminate), GatewayAction::Stop);
    assert_eq!(gateway_step(GatewayEvent::StreamEnded), GatewayAction::Fail);
    assert_eq!(gateway_step(GatewayEvent::ExpireTick), GatewayAction::ExpirePass);
    assert_eq!(gateway_step(GatewayEvent::CleanupTick), GatewayAction::Cleanup { retention_days: 30 });
    assert_eq!(RETENTION_DAYS, 30);
    assert_eq!(gateway_step(GatewayEvent::Interaction), GatewayAction::Dispatch);
    assert_eq!(gateway_step(GatewayEvent::OtherEvent), GatewayAction::Ignore);
    assert_eq!(gateway_step(GatewayEvent::ReceiveError), GatewayAction::LogReceiveError);
}
