use notification_bridge::android::{fetch_pending, modify_push, pending_array};
use notification_bridge::error::BridgeError;
use notification_bridge::ffi::{
    modify_notification, notification_body, notification_destroy, notification_title, ByteSpan,
};
use notification_bridge::generator::{
    adapters, fetch_pending_notifications, generate, generate_from, modify_push_notification,
    GeneratorError, HookShape, JavaType, FETCH_METHOD, MODIFY_METHOD, SERVICE_CLASS,
    SERVICE_DOMAIN, SERVICE_PACKAGE,
};
use notification_bridge::json::Json;
use notification_bridge::notification::{transform, NotificationData};

fn record(title: &str) -> NotificationData {
    NotificationData {
        id: Some(1),
        title: Some(String::from(title)),
        body: None,
        channel_id: None,
        extra: vec![(String::from("os"), Json::Bool(true))],
    }
}

fn set_body(mut notification: NotificationData) -> NotificationData {
    notification.body = Some(String::from("AAA"));
    notification
}

fn two_pending() -> Vec<NotificationData> {
    vec![record("a"), record("b")]
}

#[test]
fn service_names_are_fixed() {
    assert_eq!(
        format!("{}.{}.{}", SERVICE_DOMAIN, SERVICE_PACKAGE, SERVICE_CLASS),
        "app_tauri.notification.PushNotificationsService"
    );
    assert_eq!(FETCH_METHOD, "fetchpendingnotifications");
    assert_eq!(MODIFY_METHOD, "modifypushnotification");
}

#[test]
fn pending_array_has_one_text_for_each_record() {
    let records = vec![record("a"), NotificationData::new(), record("c")];
    let array = pending_array(&records).unwrap();
    assert_eq!(array.length(), 3);
    assert_eq!(array.element(0), Some("{\"id\":1,\"os\":true,\"title\":\"a\"}"));
    assert_eq!(array.element(1), Some("{}"));
    assert_eq!(array.element(2), Some("{\"id\":1,\"os\":true,\"title\":\"c\"}"));
    assert_eq!(array.element(3), None);
    assert_eq!(array.element(-1), None);
    assert_eq!(
        array.into_elements(),
        vec![
            String::from("{\"id\":1,\"os\":true,\"title\":\"a\"}"),
            String::from("{}"),
            String::from("{\"id\":1,\"os\":true,\"title\":\"c\"}")
        ]
    );
}

#[test]
fn pending_array_of_nothing_is_empty() {
    let array = pending_array(&vec![]).unwrap();
    assert_eq!(array.length(), 0);
    assert_eq!(array.element(0), None);
    assert_eq!(array.into_elements(), Vec::<String>::new());
}

#[test]
fn fetch_pending_marshals_what_the_hook_returns() {
    let array = fetch_pending(two_pending).unwrap();
    assert_eq!(array.length(), 2);
    assert_eq!(array.element(0), Some(record("a").to_text().as_str()));
    assert_eq!(array.element(1), Some(record("b").to_text().as_str()));
}

#[test]
fn transform_applies_the_hook_to_the_decoded_record() {
    assert_eq!(transform(&record("t").to_json(), set_body), Ok(set_body(record("t"))));
    assert_eq!(transform(&record("t").to_json(), |n| n), Ok(record("t")));
    assert_eq!(transform(&Json::Null, set_body), Err(BridgeError::Decode));
}

#[test]
fn modify_push_writes_what_the_hook_returns() {
    assert_eq!(
        modify_push("{\"title\":\"t\",\"id\":1,\"os\":true}", set_body),
        Ok(String::from("{\"body\":\"AAA\",\"id\":1,\"os\":true,\"title\":\"t\"}"))
    );
}

#[test]
fn modify_push_decodes_applies_and_encodes() {
    let incoming = record("t").to_text();
    let outgoing = modify_push(&incoming, set_body).unwrap();
    assert_eq!(NotificationData::from_text(&outgoing), Ok(set_body(record("t"))));
}

#[test]
fn modify_push_with_the_identity_gives_the_record_back() {
    let incoming = record("same").to_text();
    let outgoing = modify_push(&incoming, |n| n).unwrap();
    assert_eq!(NotificationData::from_text(&outgoing), Ok(record("same")));
}

#[test]
fn modify_push_rejects_what_is_not_a_notification() {
    assert_eq!(modify_push("not json", set_body), Err(BridgeError::Decode));
    assert_eq!(modify_push("[]", set_body), Err(BridgeError::Decode));
    assert_eq!(modify_push("{\"title\":1}", set_body), Err(BridgeError::Decode));
}

#[test]
fn a_span_borrows_the_bytes_of_a_text() {
    let text = String::from("héllo");
    let span = ByteSpan::from_str(&text);
    assert_eq!(span.len(), 6);
    assert_eq!(span.as_bytes(), text.as_bytes());
    assert_eq!(span.as_bytes().as_ptr(), text.as_ptr());
    assert_eq!(span.as_str(), Ok("héllo"));
}

#[test]
fn a_span_of_bad_bytes_does_not_decode() {
    let bytes = [0x66u8, 0xff, 0x6f];
    let span = ByteSpan::from_bytes(&bytes);
    assert_eq!(span.len(), 3);
    assert_eq!(span.as_str(), Err(BridgeError::Decode));
    let cut = [0xc3u8];
    assert_eq!(ByteSpan::from_bytes(&cut).as_str(), Err(BridgeError::Decode));
}

#[test]
fn an_empty_span_is_the_empty_text() {
    let span = ByteSpan::from_str("");
    assert_eq!(span.len(), 0);
    assert_eq!(span.as_str(), Ok(""));
}

#[test]
fn modify_notification_returns_what_the_hook_makes_of_the_record() {
    let incoming = record("t").to_text();
    let boxed = modify_notification(ByteSpan::from_str(&incoming), set_body).unwrap();
    assert_eq!(boxed.record(), &set_body(record("t")));
    assert_eq!(notification_title(&boxed).as_str(), Ok("t"));
    assert_eq!(notification_body(&boxed).as_str(), Ok("AAA"));
    notification_destroy(boxed);
}

#[test]
fn title_and_body_borrow_from_the_record() {
    let incoming = record("borrowed").to_text();
    let boxed = modify_notification(ByteSpan::from_str(&incoming), |n| n).unwrap();
    let title = notification_title(&boxed);
    let own = boxed.record().title.as_ref().unwrap();
    assert_eq!(title.as_bytes().as_ptr(), own.as_ptr());
    assert_eq!(title.len(), own.len());
    notification_destroy(boxed);
}

#[test]
fn a_missing_title_or_body_is_the_empty_span() {
    let boxed = modify_notification(ByteSpan::from_str("{}"), |n| n).unwrap();
    assert_eq!(notification_title(&boxed).len(), 0);
    assert_eq!(notification_body(&boxed).len(), 0);
    assert_eq!(notification_title(&boxed).as_str(), Ok(""));
    assert_eq!(boxed.clone().into_record(), NotificationData::new());
    notification_destroy(boxed);
}

#[test]
fn modify_notification_rejects_bad_spans() {
    let bad_utf8 = [0x7bu8, 0xff, 0x7d];
    assert_eq!(
        modify_notification(ByteSpan::from_bytes(&bad_utf8), set_body),
        Err(BridgeError::Decode)
    );
    assert_eq!(
        modify_notification(ByteSpan::from_str("{\"id\":true}"), set_body),
        Err(BridgeError::Decode)
    );
    assert_eq!(modify_notification(ByteSpan::from_str(""), set_body), Err(BridgeError::Decode));
}

#[test]
fn modify_adapters_bind_the_hook_by_name() {
    let source = "pub fn modify_push_notification(mut notification: NotificationData) -> NotificationData { notification }";
    let adapters = modify_push_notification(source).unwrap();
    assert_eq!(adapters.shape, HookShape::Modify);
    assert_eq!(adapters.android.domain, "app_tauri");
    assert_eq!(adapters.android.package, "notification");
    assert_eq!(adapters.android.class, "PushNotificationsService");
    assert_eq!(adapters.android.method, "modifypushnotification");
    assert_eq!(adapters.android.argument, JavaType::String);
    assert_eq!(adapters.android.result, JavaType::String);
    assert_eq!(adapters.android.hook, "modify_push_notification");
    assert_eq!(
        adapters.ios.symbols,
        vec!["notification_destroy", "notification_title", "notification_body", "modify_notification"]
    );
    assert_eq!(adapters.ios.hook, "modify_push_notification");
    assert_eq!(adapters.item, source);
}

#[test]
fn fetch_adapters_return_an_array() {
    let source = "fn pending() -> Vec<NotificationData> { Vec::new() }";
    let adapters = fetch_pending_notifications(source).unwrap();
    assert_eq!(adapters.shape, HookShape::Fetch);
    assert_eq!(adapters.android.method, "fetchpendingnotifications");
    assert_eq!(adapters.android.argument, JavaType::Object);
    assert_eq!(adapters.android.result, JavaType::ObjectArray);
    assert_eq!(adapters.android.hook, "pending");
    assert_eq!(adapters.ios.symbols, Vec::<&str>::new());
    assert_eq!(adapters.item, source);
}

#[test]
fn the_hook_name_is_read_from_the_signature() {
    let source = "#[inline]\npub(crate) async unsafe fn my_hook<'a>(x: &'a str) -> &'a str { x }";
    assert_eq!(generate(HookShape::Modify, source).unwrap().android.hook, "my_hook");
}

#[test]
fn what_is_not_a_function_is_rejected() {
    assert!(matches!(
        modify_push_notification("struct NotAFunction;"),
        Err(GeneratorError::NotAFunction(_))
    ));
    assert!(matches!(
        fetch_pending_notifications("fn broken( {"),
        Err(GeneratorError::NotAFunction(_))
    ));
    assert!(matches!(
        fetch_pending_notifications("fn one() {} fn two() {}"),
        Err(GeneratorError::NotAFunction(_))
    ));
    assert!(matches!(modify_push_notification(""), Err(GeneratorError::NotAFunction(_))));
}

#[test]
fn generate_from_goes_by_the_parser_outcome() {
    let ok = generate_from(HookShape::Fetch, Ok(String::from("hook")), "fn hook() {}");
    assert_eq!(ok, Ok(adapters(HookShape::Fetch, "hook", "fn hook() {}")));
    let err = generate_from(HookShape::Fetch, Err(String::from("expected `fn`")), "x");
    assert_eq!(err, Err(GeneratorError::NotAFunction(String::from("expected `fn`"))));
}
