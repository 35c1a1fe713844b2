use notification_bridge::codec::decode;
use notification_bridge::events::{
    announce_action, on_action_performed, ChannelBody, ChannelOutcome, Delivery, EventBus,
    HostEvent,
};
use notification_bridge::json::Json;

fn text(value: &str) -> Json {
    Json::Text(String::from(value))
}

fn event(name: &str, payload: Json) -> HostEvent {
    HostEvent { name: String::from(name), payload }
}

fn json_body(text: &str) -> ChannelBody {
    ChannelBody::Json(String::from(text))
}

#[test]
fn a_performed_action_becomes_a_host_event() {
    let body = json_body("{\"actionId\":\"tap\",\"notification\":{\"id\":1,\"x\":2},\"stray\":0}");
    let expected = event(
        "notification-action-performed",
        Json::Object(vec![
            (String::from("actionId"), text("tap")),
            (
                String::from("notification"),
                Json::Object(vec![
                    (String::from("id"), Json::Int(1)),
                    (String::from("x"), Json::Int(2)),
                ]),
            ),
        ]),
    );
    assert_eq!(on_action_performed(&body), ChannelOutcome::Emit(expected));
}

#[test]
fn announce_action_reads_a_value() {
    let value = decode("{\"actionId\":\"open\",\"notification\":{}}").unwrap();
    let expected = event(
        "notification-action-performed",
        Json::Object(vec![
            (String::from("actionId"), text("open")),
            (String::from("notification"), Json::Object(vec![])),
        ]),
    );
    assert_eq!(announce_action(&value), ChannelOutcome::Emit(expected));
    assert_eq!(announce_action(&Json::Int(1)), ChannelOutcome::Malformed);
}

#[test]
fn a_malformed_event_is_set_aside() {
    assert_eq!(on_action_performed(&json_body("{\"actionId\":\"tap\"}")), ChannelOutcome::Malformed);
    assert_eq!(on_action_performed(&json_body("null")), ChannelOutcome::Malformed);
    assert_eq!(on_action_performed(&json_body("{not json")), ChannelOutcome::Malformed);
    assert_eq!(on_action_performed(&json_body("")), ChannelOutcome::Malformed);
}

#[test]
fn a_raw_body_is_passed_over() {
    let body = ChannelBody::Raw(vec![123, 125]);
    assert_eq!(on_action_performed(&body), ChannelOutcome::Ignored);
}

#[test]
fn the_channel_goes_on_after_a_malformed_event() {
    let bad = json_body("\"oops\"");
    let good = json_body("{\"actionId\":\"a\",\"notification\":{}}");
    assert_eq!(on_action_performed(&bad), ChannelOutcome::Malformed);
    assert!(matches!(on_action_performed(&good), ChannelOutcome::Emit(_)));
    assert_eq!(on_action_performed(&bad), ChannelOutcome::Malformed);
    assert!(matches!(on_action_performed(&good), ChannelOutcome::Emit(_)));
}

#[test]
fn a_new_bus_has_no_listeners() {
    let bus = EventBus::new();
    assert_eq!(bus.len(), 0);
    assert_eq!(bus.recipients("any"), Vec::<u64>::new());
    assert_eq!(bus.emit(&event("any", Json::Null)), vec![]);
}

#[test]
fn registering_twice_for_one_event_makes_two_listeners() {
    let mut bus = EventBus::new();
    let first = bus.subscribe("notification-action-performed").unwrap();
    let second = bus.subscribe("notification-action-performed").unwrap();
    assert_ne!(first, second);
    assert_eq!(bus.len(), 2);
    assert_eq!(bus.recipients("notification-action-performed"), vec![first, second]);
}

#[test]
fn both_registrations_receive_every_later_event() {
    let mut bus = EventBus::new();
    let first = bus.subscribe("tap").unwrap();
    let second = bus.subscribe("tap").unwrap();
    let one = event("tap", Json::Int(1));
    let two = event("tap", text("two"));
    assert_eq!(
        bus.emit(&one),
        vec![
            Delivery { listener: first, payload: Json::Int(1) },
            Delivery { listener: second, payload: Json::Int(1) }
        ]
    );
    assert_eq!(
        bus.emit(&two),
        vec![
            Delivery { listener: first, payload: text("two") },
            Delivery { listener: second, payload: text("two") }
        ]
    );
}

#[test]
fn an_event_goes_to_the_listeners_of_its_name_only() {
    let mut bus = EventBus::new();
    let tap = bus.subscribe("tap").unwrap();
    let token = bus.subscribe("new-fcm-token").unwrap();
    let again = bus.subscribe("tap").unwrap();
    assert_eq!(bus.recipients("tap"), vec![tap, again]);
    assert_eq!(bus.recipients("new-fcm-token"), vec![token]);
    assert_eq!(bus.recipients("Tap"), Vec::<u64>::new());
    assert_eq!(
        bus.emit(&event("new-fcm-token", text("t"))),
        vec![Delivery { listener: token, payload: text("t") }]
    );
}

#[test]
fn identifiers_count_up_from_zero() {
    let mut bus = EventBus::new();
    assert_eq!(bus.subscribe("a"), Some(0));
    assert_eq!(bus.subscribe("b"), Some(1));
    assert_eq!(bus.subscribe("a"), Some(2));
}

#[test]
fn unsubscribe_removes_one_listener() {
    let mut bus = EventBus::new();
    let first = bus.subscribe("tap").unwrap();
    let second = bus.subscribe("tap").unwrap();
    assert!(bus.unsubscribe(first));
    assert_eq!(bus.recipients("tap"), vec![second]);
    assert!(!bus.unsubscribe(first));
    assert!(!bus.unsubscribe(99));
    assert_eq!(bus.len(), 1);
    let third = bus.subscribe("tap").unwrap();
    assert_ne!(third, first);
    assert_eq!(bus.recipients("tap"), vec![second, third]);
}
