use notification_bridge::error::BridgeError;
use notification_bridge::json::Json;
use notification_bridge::notification::{is_reserved_key, NotificationData};

fn text(value: &str) -> Json {
    Json::Text(String::from(value))
}

fn member(key: &str, value: Json) -> (String, Json) {
    (String::from(key), value)
}

fn sample() -> NotificationData {
    NotificationData {
        id: Some(42),
        title: Some(String::from("Hello")),
        body: Some(String::from("World")),
        channel_id: Some(String::from("news")),
        extra: vec![member("badge", Json::Int(3)), member("sound", text("ping"))],
    }
}

#[test]
fn to_json_lists_own_members_then_extras() {
    let expected = Json::Object(vec![
        member("id", Json::Int(42)),
        member("title", text("Hello")),
        member("body", text("World")),
        member("channelId", text("news")),
        member("badge", Json::Int(3)),
        member("sound", text("ping")),
    ]);
    assert_eq!(sample().to_json(), expected);
}

#[test]
fn to_json_leaves_out_fields_without_a_value() {
    let data = NotificationData {
        id: None,
        title: Some(String::from("only")),
        body: None,
        channel_id: None,
        extra: vec![],
    };
    assert_eq!(data.to_json(), Json::Object(vec![member("title", text("only"))]));
    assert_eq!(NotificationData::new().to_json(), Json::Object(vec![]));
}

#[test]
fn from_json_reads_own_members_and_keeps_the_rest() {
    let wire = Json::Object(vec![
        member("osToken", text("abc")),
        member("title", text("Hello")),
        member("id", Json::Int(-5)),
        member("priority", Json::Array(vec![Json::Int(1)])),
    ]);
    let expected = NotificationData {
        id: Some(-5),
        title: Some(String::from("Hello")),
        body: None,
        channel_id: None,
        extra: vec![
            member("osToken", text("abc")),
            member("priority", Json::Array(vec![Json::Int(1)])),
        ],
    };
    assert_eq!(NotificationData::from_json(&wire), Ok(expected));
}

#[test]
fn from_json_reads_null_as_no_value() {
    let wire = Json::Object(vec![
        member("id", Json::Null),
        member("title", Json::Null),
        member("body", Json::Null),
        member("channelId", Json::Null),
    ]);
    assert_eq!(NotificationData::from_json(&wire), Ok(NotificationData::new()));
}

#[test]
fn from_json_rejects_what_is_not_an_object() {
    assert_eq!(NotificationData::from_json(&Json::Null), Err(BridgeError::Decode));
    assert_eq!(NotificationData::from_json(&Json::Array(vec![])), Err(BridgeError::Decode));
    assert_eq!(NotificationData::from_json(&text("{}")), Err(BridgeError::Decode));
}

#[test]
fn from_json_rejects_own_members_of_the_wrong_type() {
    let id = Json::Object(vec![member("id", text("7"))]);
    assert_eq!(NotificationData::from_json(&id), Err(BridgeError::Decode));
    let wide = Json::Object(vec![member("id", Json::Int(2147483648))]);
    assert_eq!(NotificationData::from_json(&wide), Err(BridgeError::Decode));
    let fraction = Json::Object(vec![member("id", Json::Decimal(String::from("1.5")))]);
    assert_eq!(NotificationData::from_json(&fraction), Err(BridgeError::Decode));
    let title = Json::Object(vec![member("title", Json::Int(1))]);
    assert_eq!(NotificationData::from_json(&title), Err(BridgeError::Decode));
    let body = Json::Object(vec![member("body", Json::Bool(true))]);
    assert_eq!(NotificationData::from_json(&body), Err(BridgeError::Decode));
    let channel = Json::Object(vec![member("channelId", Json::Array(vec![]))]);
    assert_eq!(NotificationData::from_json(&channel), Err(BridgeError::Decode));
}

#[test]
fn from_json_goes_by_the_last_of_two_members_with_one_key() {
    let wire = Json::Object(vec![member("id", Json::Int(1)), member("id", Json::Int(2))]);
    let decoded = NotificationData::from_json(&wire).unwrap();
    assert_eq!(decoded.id, Some(2));
    assert_eq!(decoded.extra, vec![]);
}

#[test]
fn decoding_the_wire_object_gives_the_record_back() {
    let data = sample();
    assert!(data.is_valid());
    assert_eq!(NotificationData::from_json(&data.to_json()), Ok(sample()));
    let bare = NotificationData::new();
    assert_eq!(NotificationData::from_json(&bare.to_json()), Ok(NotificationData::new()));
}

#[test]
fn extras_keep_their_order_and_their_values() {
    let nested = Json::Object(vec![member("deep", Json::Array(vec![Json::Null, text("x")]))]);
    let data = NotificationData {
        id: None,
        title: None,
        body: None,
        channel_id: None,
        extra: vec![
            member("zeta", nested),
            member("alpha", Json::Decimal(String::from("0.25"))),
            member("mid", Json::Int(1)),
        ],
    };
    assert!(data.is_valid());
    let decoded = NotificationData::from_json(&data.to_json()).unwrap();
    assert_eq!(decoded, data);
}

#[test]
fn a_record_with_two_extras_of_one_key_is_not_valid() {
    let mut data = sample();
    assert!(data.is_valid());
    data.extra.push(member("badge", Json::Int(9)));
    assert!(!data.is_valid());
}

#[test]
fn from_json_keeps_one_extra_for_each_key() {
    let wire = Json::Object(vec![
        member("a", Json::Int(1)),
        member("b", Json::Int(2)),
        member("title", text("t")),
        member("a", Json::Int(3)),
    ]);
    let decoded = NotificationData::from_json(&wire).unwrap();
    assert_eq!(decoded.title, Some(String::from("t")));
    assert_eq!(decoded.extra, vec![member("b", Json::Int(2)), member("a", Json::Int(3))]);
    assert!(decoded.is_valid());
}

#[test]
fn same_record_does_not_look_at_the_order_of_extras() {
    let data = sample();
    let mut turned = sample();
    turned.extra.reverse();
    assert_ne!(data.extra, turned.extra);
    assert_eq!(data, turned);
    assert!(data.same_record(&turned));
    assert!(turned.same_record(&data));
    assert!(data.same_record(&sample()));
}

#[test]
fn same_record_tells_records_apart() {
    let data = sample();
    let mut other = sample();
    other.id = Some(43);
    assert!(!data.same_record(&other));
    let mut other = sample();
    other.title = None;
    assert!(!data.same_record(&other));
    let mut other = sample();
    other.body = Some(String::from("world"));
    assert!(!data.same_record(&other));
    let mut other = sample();
    other.channel_id = Some(String::from("sports"));
    assert!(!data.same_record(&other));
    let mut other = sample();
    other.extra.pop();
    assert!(!data.same_record(&other));
    assert!(!other.same_record(&data));
    let mut other = sample();
    other.extra[0].1 = Json::Int(4);
    assert!(!data.same_record(&other));
    let mut other = sample();
    other.extra.push(member("more", Json::Null));
    assert!(!data.same_record(&other));
}

#[test]
fn text_round_trip_gives_the_same_record_whatever_the_order() {
    let nested = Json::Object(vec![
        member("z", Json::Array(vec![Json::Object(vec![member("b", Json::Int(1)), member("a", Json::Null)])])),
        member("k", text("v")),
    ]);
    let data = NotificationData {
        id: Some(2),
        title: Some(String::from("t")),
        body: None,
        channel_id: None,
        extra: vec![member("zeta", nested), member("alpha", text("a"))],
    };
    assert!(data.is_valid());
    let decoded = NotificationData::from_text(&data.to_text()).unwrap();
    assert!(decoded.same_record(&data));
    assert!(decoded.is_valid());
    assert_ne!(decoded.extra, data.extra);
    assert_eq!(decoded, data);
    assert_eq!(NotificationData::from_text(&data.to_text()), Ok(data));
}

#[test]
fn a_record_with_a_reserved_extra_is_not_valid() {
    let mut data = sample();
    assert!(data.is_valid());
    data.extra.push(member("title", text("other")));
    assert!(!data.is_valid());
    let decoded = NotificationData::from_json(&data.to_json()).unwrap();
    assert_eq!(decoded.title, Some(String::from("other")));
    assert_ne!(decoded, data);
}

#[test]
fn reserved_keys_are_the_four_own_members() {
    assert!(is_reserved_key("id"));
    assert!(is_reserved_key("title"));
    assert!(is_reserved_key("body"));
    assert!(is_reserved_key("channelId"));
    assert!(!is_reserved_key("channel_id"));
    assert!(!is_reserved_key("Id"));
    assert!(!is_reserved_key(""));
}

#[test]
fn to_text_writes_the_wire_object() {
    let data = NotificationData {
        id: Some(1),
        title: Some(String::from("T")),
        body: None,
        channel_id: Some(String::from("c")),
        extra: vec![member("x", Json::Bool(true))],
    };
    assert_eq!(data.to_text(), "{\"channelId\":\"c\",\"id\":1,\"title\":\"T\",\"x\":true}");
}

#[test]
fn from_text_reads_a_notification() {
    let decoded = NotificationData::from_text("{\"id\":9,\"body\":\"b\",\"osExtra\":[1.5]}");
    let expected = NotificationData {
        id: Some(9),
        title: None,
        body: Some(String::from("b")),
        channel_id: None,
        extra: vec![member("osExtra", Json::Array(vec![Json::Decimal(String::from("1.5"))]))],
    };
    assert_eq!(decoded, Ok(expected));
}

#[test]
fn from_text_rejects_bad_text_and_bad_shapes() {
    assert_eq!(NotificationData::from_text("not json"), Err(BridgeError::Decode));
    assert_eq!(NotificationData::from_text("[1]"), Err(BridgeError::Decode));
    assert_eq!(NotificationData::from_text("{\"id\":\"1\"}"), Err(BridgeError::Decode));
}

#[test]
fn text_round_trip_gives_an_equal_record() {
    let data = sample();
    assert_eq!(NotificationData::from_text(&data.to_text()), Ok(sample()));
}

#[test]
fn clone_is_equal_to_the_record() {
    assert_eq!(sample().clone(), sample());
}

#[test]
fn text_round_trip_returns_the_extras_in_key_order() {
    let data = NotificationData {
        id: Some(2),
        title: None,
        body: None,
        channel_id: None,
        extra: vec![member("zeta", Json::Int(1)), member("alpha", Json::Int(2))],
    };
    let decoded = NotificationData::from_text(&data.to_text()).unwrap();
    assert_eq!(decoded.id, Some(2));
    assert_eq!(decoded.extra, vec![member("alpha", Json::Int(2)), member("zeta", Json::Int(1))]);
}
