use staten::config::{Configuration, KEEP_ALIVE_SECS};
use staten::subscription::{
    BusEvent, LoopAction, LoopState, QualityOfService, RawMessage, SubscriptionLoop,
};

fn configuration() -> Configuration {
    Configuration {
        mqtt_url: String::from("mqtt://broker.local:1883?client_id=bridge"),
        mqtt_topic: String::from("sensors/aqi"),
        influx_url: String::from("http://store.local:8086"),
        influx_db: String::from("air"),
    }
}

fn message(payload: &[u8]) -> RawMessage {
    RawMessage { topic: String::from("sensors/aqi"), payload: payload.to_vec() }
}

fn subscribed() -> SubscriptionLoop {
    let mut bridge = SubscriptionLoop::new(&configuration());
    bridge.subscribe();
    bridge
}

#[test]
fn loop_starts_connecting_on_the_configured_topic() {
    let bridge = SubscriptionLoop::new(&configuration());
    assert_eq!(bridge.state, LoopState::Connecting);
    assert_eq!(bridge.topic, "sensors/aqi");
}

#[test]
fn subscription_is_at_most_once_on_the_configured_topic() {
    let mut bridge = SubscriptionLoop::new(&configuration());
    let request = bridge.subscribe();
    assert_eq!(bridge.state, LoopState::Subscribed);
    assert_eq!(bridge.topic, "sensors/aqi");
    assert_eq!(request.topic, "sensors/aqi");
    assert_eq!(request.delivery, QualityOfService::AtMostOnce);
    assert_eq!(request.keep_alive_secs, 5);
    assert_eq!(KEEP_ALIVE_SECS, 5);
}

#[test]
fn subscribing_again_does_not_leave_the_receive_loop() {
    let mut bridge = subscribed();
    bridge.on_event(BusEvent::Protocol);
    let request = bridge.subscribe();
    assert_eq!(bridge.state, LoopState::Idle);
    assert_eq!(request.delivery, QualityOfService::AtMostOnce);
}

#[test]
fn message_is_dispatched_with_its_payload() {
    let mut bridge = subscribed();
    let action = bridge.on_event(BusEvent::Message(message(b"{\"pm25\":1}")));
    assert_eq!(bridge.state, LoopState::Dispatching);
    assert_eq!(action, LoopAction::Dispatch(message(b"{\"pm25\":1}")));
}

#[test]
fn malformed_message_is_dispatched_all_the_same() {
    let mut bridge = subscribed();
    let action = bridge.on_event(BusEvent::Message(message(b"not json")));
    assert_eq!(bridge.state, LoopState::Dispatching);
    assert_eq!(action, LoopAction::Dispatch(message(b"not json")));
}

#[test]
fn protocol_event_is_ignored() {
    let mut bridge = subscribed();
    let action = bridge.on_event(BusEvent::Protocol);
    assert_eq!(bridge.state, LoopState::Idle);
    assert_eq!(action, LoopAction::Ignore);
}

#[test]
fn connection_error_is_reported_and_the_loop_goes_on() {
    let mut bridge = subscribed();
    let action = bridge.on_event(BusEvent::ConnectionError(String::from("connection refused")));
    assert_eq!(bridge.state, LoopState::ErrorLogged);
    assert_eq!(action, LoopAction::ReportError(String::from("connection refused")));
    let action = bridge.on_event(BusEvent::Message(message(b"{\"pm25\":2}")));
    assert_eq!(bridge.state, LoopState::Dispatching);
    assert_eq!(action, LoopAction::Dispatch(message(b"{\"pm25\":2}")));
    assert_eq!(bridge.topic, "sensors/aqi");
}

#[test]
fn messages_are_dispatched_in_arrival_order() {
    let events = vec![
        BusEvent::Message(message(b"1")),
        BusEvent::Protocol,
        BusEvent::ConnectionError(String::from("reset")),
        BusEvent::Message(message(b"2")),
        BusEvent::Message(message(b"3")),
    ];
    let mut bridge = subscribed();
    let mut dispatched: Vec<Vec<u8>> = Vec::new();
    for event in events {
        let action = bridge.on_event(event);
        assert!(matches!(
            bridge.state,
            LoopState::Dispatching | LoopState::Idle | LoopState::ErrorLogged
        ));
        if let LoopAction::Dispatch(raw) = action {
            dispatched.push(raw.payload);
        }
    }
    assert_eq!(dispatched, vec![b"1".to_vec(), b"2".to_vec(), b"3".to_vec()]);
}
