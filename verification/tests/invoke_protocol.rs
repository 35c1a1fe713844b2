use notification_bridge::codec::{decode, encode};
use notification_bridge::error::BridgeError;
use notification_bridge::json::Json;
use notification_bridge::mobile::{
    init, Notification, NotificationActionPerformedPayload, NotificationBuilder, Platform,
    PluginRegistration, RegisterListenerArgs,
};
use notification_bridge::models::{
    Action, ActionType, ActiveNotification, Channel, Importance, PendingNotification,
    PermissionState,
};
use notification_bridge::notification::NotificationData;
use notification_bridge::protocol::{Command, NativeReply, PluginCall};

fn text(value: &str) -> Json {
    Json::Text(String::from(value))
}

fn member(key: &str, value: Json) -> (String, Json) {
    (String::from(key), value)
}

fn android() -> Notification {
    init(Platform::Android, text("__CHANNEL__:1")).0
}

fn ios() -> Notification {
    init(Platform::Ios, Json::Null).0
}

fn resolved(wire: &str) -> NativeReply {
    NativeReply::Resolved(decode(wire).unwrap())
}

fn rejected(message: &str) -> NativeReply {
    NativeReply::Rejected(String::from(message))
}

fn invoke_error(message: &str) -> BridgeError {
    BridgeError::Invoke(String::from(message))
}

#[test]
fn every_command_has_its_wire_name() {
    assert_eq!(Command::Show.name(), "show");
    assert_eq!(Command::GetLaunchingNotification.name(), "getLaunchingNotification");
    assert_eq!(Command::RegisterForPushNotifications.name(), "registerForPushNotifications");
    assert_eq!(Command::GetFcmToken.name(), "getFCMToken");
    assert_eq!(Command::RequestPermissions.name(), "requestPermissions");
    assert_eq!(Command::CheckPermissions.name(), "checkPermissions");
    assert_eq!(Command::RegisterActionTypes.name(), "registerActionTypes");
    assert_eq!(Command::RemoveActive.name(), "removeActive");
    assert_eq!(Command::GetActive.name(), "getActive");
    assert_eq!(Command::GetPending.name(), "getPending");
    assert_eq!(Command::Cancel.name(), "cancel");
    assert_eq!(Command::CreateChannel.name(), "createChannel");
    assert_eq!(Command::DeleteChannel.name(), "deleteChannel");
    assert_eq!(Command::ListChannels.name(), "listChannels");
    assert_eq!(Command::RegisterListener.name(), "registerListener");
}

#[test]
fn only_the_channel_commands_are_android_only() {
    assert!(Command::CreateChannel.is_android_only());
    assert!(Command::DeleteChannel.is_android_only());
    assert!(Command::ListChannels.is_android_only());
    assert!(!Command::Show.is_android_only());
    assert!(!Command::Cancel.is_android_only());
    assert!(!Command::GetFcmToken.is_android_only());
    assert!(!Command::RegisterListener.is_android_only());
}

#[test]
fn init_on_android_registers_the_action_listener() {
    let (notification, listener) = init(Platform::Android, text("__CHANNEL__:7"));
    assert_eq!(notification.platform(), Platform::Android);
    let call = listener.unwrap();
    assert_eq!(call.command, Command::RegisterListener);
    assert_eq!(
        encode(&call.args),
        "{\"event\":\"actionPerformed\",\"handler\":\"__CHANNEL__:7\"}"
    );
}

#[test]
fn init_on_ios_registers_no_listener() {
    let (notification, listener) = init(Platform::Ios, text("__CHANNEL__:7"));
    assert_eq!(notification.platform(), Platform::Ios);
    assert_eq!(listener, None);
}

#[test]
fn registration_names_the_native_plugin() {
    assert_eq!(
        android().registration(),
        PluginRegistration::Android {
            identifier: "app.tauri.notification",
            class_name: "NotificationPlugin"
        }
    );
    assert_eq!(
        ios().registration(),
        PluginRegistration::Ios { binding: "init_plugin_notification" }
    );
}

#[test]
fn register_listener_args_write_event_and_handler() {
    let args = RegisterListenerArgs { event: String::from("tap"), handler: Json::Int(4) };
    assert_eq!(
        args.to_json(),
        Json::Object(vec![member("event", text("tap")), member("handler", Json::Int(4))])
    );
}

#[test]
fn commands_without_arguments_send_null() {
    let n = android();
    assert_eq!(n.get_launching_notification(), PluginCall::bare(Command::GetLaunchingNotification));
    assert_eq!(
        n.register_for_push_notifications(),
        PluginCall::bare(Command::RegisterForPushNotifications)
    );
    assert_eq!(n.get_fcm_token(), PluginCall::bare(Command::GetFcmToken));
    assert_eq!(n.request_permission(), PluginCall::bare(Command::RequestPermissions));
    assert_eq!(n.permission_state(), PluginCall::bare(Command::CheckPermissions));
    assert_eq!(n.active(), PluginCall::bare(Command::GetActive));
    assert_eq!(n.pending(), PluginCall::bare(Command::GetPending));
    assert_eq!(n.pending().args, Json::Null);
    assert_eq!(encode(&n.pending().args), "null");
}

#[test]
fn cancel_names_exactly_the_given_ids() {
    let call = android().cancel(vec![3, -1, 3]);
    assert_eq!(call.command, Command::Cancel);
    assert_eq!(encode(&call.args), "{\"notifications\":[3,-1,3]}");
    assert_eq!(encode(&ios().cancel(vec![]).args), "{\"notifications\":[]}");
}

#[test]
fn cancel_all_is_cancel_without_arguments() {
    assert_eq!(android().cancel_all(), PluginCall::bare(Command::Cancel));
}

#[test]
fn remove_active_wraps_each_id_in_an_object() {
    let call = android().remove_active(vec![5, 6]);
    assert_eq!(call.command, Command::RemoveActive);
    assert_eq!(encode(&call.args), "{\"notifications\":[{\"id\":5},{\"id\":6}]}");
}

#[test]
fn remove_all_active_is_remove_active_without_arguments() {
    assert_eq!(android().remove_all_active(), PluginCall::bare(Command::RemoveActive));
}

#[test]
fn register_action_types_sends_the_types_under_one_key() {
    let types = vec![ActionType {
        id: String::from("reply"),
        actions: vec![Action { id: String::from("send"), title: String::from("Send") }],
    }];
    let call = android().register_action_types(types);
    assert_eq!(call.command, Command::RegisterActionTypes);
    assert_eq!(
        encode(&call.args),
        "{\"types\":[{\"actions\":[{\"id\":\"send\",\"title\":\"Send\"}],\"id\":\"reply\"}]}"
    );
}

#[test]
fn channel_commands_exist_on_android() {
    let channel = Channel {
        id: String::from("news"),
        name: String::from("News"),
        importance: Importance::Low,
        description: None,
    };
    let create = android().create_channel(channel.clone()).unwrap();
    assert_eq!(create, PluginCall::with_args(Command::CreateChannel, channel.to_json()));
    let delete = android().delete_channel("news").unwrap();
    assert_eq!(delete.command, Command::DeleteChannel);
    assert_eq!(encode(&delete.args), "{\"id\":\"news\"}");
    assert_eq!(android().list_channels(), Some(PluginCall::bare(Command::ListChannels)));
}

#[test]
fn channel_commands_do_not_exist_on_ios() {
    let channel = Channel {
        id: String::from("news"),
        name: String::from("News"),
        importance: Importance::Low,
        description: None,
    };
    assert_eq!(ios().create_channel(channel), None);
    assert_eq!(ios().delete_channel("news"), None);
    assert_eq!(ios().list_channels(), None);
}

#[test]
fn builder_collects_the_notification() {
    let builder = android()
        .builder()
        .id(7)
        .title("Hello")
        .body("World")
        .channel_id("news")
        .extra("badge", Json::Int(2))
        .extra("title", text("ignored"));
    let expected = NotificationData {
        id: Some(7),
        title: Some(String::from("Hello")),
        body: Some(String::from("World")),
        channel_id: Some(String::from("news")),
        extra: vec![member("badge", Json::Int(2))],
    };
    assert_eq!(builder.data(), &expected);
    assert!(builder.data().is_valid());
    assert_eq!(NotificationBuilder::new().data(), &NotificationData::new());
}

#[test]
fn builder_replaces_an_extra_of_the_same_key() {
    let builder = android()
        .builder()
        .extra("badge", Json::Int(1))
        .extra("sound", text("ping"))
        .extra("badge", Json::Int(2));
    assert_eq!(
        builder.data().extra,
        vec![member("sound", text("ping")), member("badge", Json::Int(2))]
    );
    assert!(builder.data().is_valid());
}

#[test]
fn show_sends_the_notification_as_arguments() {
    let call = android().builder().title("Hi").channel_id("c").show();
    assert_eq!(call.command, Command::Show);
    assert_eq!(encode(&call.args), "{\"channelId\":\"c\",\"title\":\"Hi\"}");
}

#[test]
fn a_rejected_reply_is_an_invoke_error_for_every_reader() {
    assert_eq!(rejected("denied").into_unit(), Err(invoke_error("denied")));
    assert_eq!(rejected("denied").into_shown(), Err(invoke_error("denied")));
    assert_eq!(rejected("denied").into_token(), Err(invoke_error("denied")));
    assert_eq!(rejected("denied").into_permission(), Err(invoke_error("denied")));
    assert_eq!(rejected("denied").into_active(), Err(invoke_error("denied")));
    assert_eq!(rejected("denied").into_pending(), Err(invoke_error("denied")));
    assert_eq!(rejected("denied").into_channels(), Err(invoke_error("denied")));
    assert_eq!(rejected("denied").into_launching_notification(), Err(invoke_error("denied")));
}

#[test]
fn unit_reply_has_to_be_null() {
    assert_eq!(resolved("null").into_unit(), Ok(()));
    assert_eq!(resolved("{}").into_unit(), Err(BridgeError::Decode));
    assert_eq!(resolved("0").into_unit(), Err(BridgeError::Decode));
}

#[test]
fn show_reply_has_to_be_an_identifier() {
    assert_eq!(resolved("12").into_shown(), Ok(()));
    assert_eq!(resolved("-2147483648").into_shown(), Ok(()));
    assert_eq!(resolved("2147483648").into_shown(), Err(BridgeError::Decode));
    assert_eq!(resolved("null").into_shown(), Err(BridgeError::Decode));
    assert_eq!(resolved("\"12\"").into_shown(), Err(BridgeError::Decode));
}

#[test]
fn token_reply_has_to_be_a_string() {
    assert_eq!(resolved("\"tok-1\"").into_token(), Ok(String::from("tok-1")));
    assert_eq!(resolved("{\"token\":\"tok-1\"}").into_token(), Err(BridgeError::Decode));
    assert_eq!(resolved("null").into_token(), Err(BridgeError::Decode));
}

#[test]
fn permission_reply_holds_the_state_in_a_member() {
    assert_eq!(
        resolved("{\"permissionState\":\"granted\"}").into_permission(),
        Ok(PermissionState::Granted)
    );
    assert_eq!(
        resolved("{\"permissionState\":\"prompt\",\"other\":1}").into_permission(),
        Ok(PermissionState::Prompt)
    );
    assert_eq!(resolved("\"granted\"").into_permission(), Err(BridgeError::Decode));
    assert_eq!(resolved("{\"permission_state\":\"granted\"}").into_permission(), Err(BridgeError::Decode));
    assert_eq!(resolved("{\"permissionState\":\"maybe\"}").into_permission(), Err(BridgeError::Decode));
}

#[test]
fn list_replies_decode_their_elements() {
    let titled = NotificationData {
        id: None,
        title: Some(String::from("t")),
        body: None,
        channel_id: None,
        extra: vec![],
    };
    assert_eq!(
        resolved("[{\"id\":1,\"notification\":{\"title\":\"t\"}}]").into_active(),
        Ok(vec![ActiveNotification { id: 1, notification: titled.clone() }])
    );
    assert_eq!(
        resolved("[{\"id\":1,\"scheduleTime\":5,\"notification\":{\"title\":\"t\"}}]").into_pending(),
        Ok(vec![PendingNotification { id: 1, schedule_time: 5, notification: titled }])
    );
    assert_eq!(
        resolved("[{\"id\":\"c\",\"name\":\"C\",\"importance\":2}]").into_channels(),
        Ok(vec![Channel {
            id: String::from("c"),
            name: String::from("C"),
            importance: Importance::Low,
            description: None
        }])
    );
    assert_eq!(resolved("[]").into_pending(), Ok(vec![]));
    assert_eq!(resolved("null").into_pending(), Err(BridgeError::Decode));
    assert_eq!(resolved("{}").into_active(), Err(BridgeError::Decode));
    assert_eq!(resolved("[1]").into_channels(), Err(BridgeError::Decode));
}

#[test]
fn launching_notification_is_none_without_the_notification_key() {
    assert_eq!(resolved("null").into_launching_notification(), Ok(None));
    assert_eq!(resolved("{}").into_launching_notification(), Ok(None));
    assert_eq!(resolved("{\"actionId\":\"tap\"}").into_launching_notification(), Ok(None));
    assert_eq!(resolved("[1,2]").into_launching_notification(), Ok(None));
    assert_eq!(resolved("\"notification\"").into_launching_notification(), Ok(None));
}

#[test]
fn launching_notification_is_decoded_when_the_key_is_there() {
    let reply = resolved("{\"actionId\":\"tap\",\"notification\":{\"id\":4,\"title\":\"Hi\",\"os\":true}}");
    let expected = NotificationActionPerformedPayload {
        action_id: String::from("tap"),
        notification: NotificationData {
            id: Some(4),
            title: Some(String::from("Hi")),
            body: None,
            channel_id: None,
            extra: vec![member("os", Json::Bool(true))],
        },
    };
    assert_eq!(reply.into_launching_notification(), Ok(Some(expected)));
}

#[test]
fn launching_notification_with_the_key_and_a_bad_shape_is_a_decode_error() {
    assert_eq!(
        resolved("{\"notification\":{\"id\":4}}").into_launching_notification(),
        Err(BridgeError::Decode)
    );
    assert_eq!(
        resolved("{\"actionId\":\"tap\",\"notification\":null}").into_launching_notification(),
        Err(BridgeError::Decode)
    );
    assert_eq!(
        resolved("{\"actionId\":1,\"notification\":{}}").into_launching_notification(),
        Err(BridgeError::Decode)
    );
}

#[test]
fn payload_uses_camel_case_keys() {
    let payload = NotificationActionPerformedPayload {
        action_id: String::from("tap"),
        notification: NotificationData::new(),
    };
    assert_eq!(encode(&payload.to_json()), "{\"actionId\":\"tap\",\"notification\":{}}");
    assert_eq!(NotificationActionPerformedPayload::from_json(&payload.to_json()), Ok(payload));
    let snake = decode("{\"action_id\":\"tap\",\"notification\":{}}").unwrap();
    assert_eq!(NotificationActionPerformedPayload::from_json(&snake), Err(BridgeError::Decode));
}

#[test]
fn an_error_describes_itself() {
    assert_eq!(invoke_error("no permission").message(), "no permission");
    assert!(invoke_error("no permission").is_invoke());
    assert_eq!(
        BridgeError::Decode.message(),
        "the wire payload does not have the expected shape"
    );
    assert!(!BridgeError::Decode.is_invoke());
}
