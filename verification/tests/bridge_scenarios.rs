use notification_bridge::error::BridgeError;
use notification_bridge::json::Json;
use notification_bridge::mobile::{init, Notification, Platform};
use notification_bridge::models::{
    Action, ActionType, Channel, Importance, PendingNotification,
};
use notification_bridge::notification::NotificationData;
use notification_bridge::protocol::{Command, NativeReply, PluginCall};

/// A stand-in for the Android plugin: it keeps the pending set and the
/// declared channels, and answers calls as the platform is expected to.
struct FakePlugin {
    pending: Vec<PendingNotification>,
    channels: Vec<String>,
    action_types: Vec<String>,
}

fn ids_of(args: &Json) -> Option<Vec<i32>> {
    let listed = args.get("notifications")?.as_array()?;
    let mut ids = Vec::new();
    for item in listed {
        ids.push(item.as_i32()?);
    }
    Some(ids)
}

impl FakePlugin {
    fn new(pending: Vec<PendingNotification>) -> FakePlugin {
        FakePlugin { pending, channels: Vec::new(), action_types: Vec::new() }
    }

    fn answer(&mut self, call: PluginCall) -> NativeReply {
        match call.command {
            Command::Cancel => {
                if call.args.is_null() {
                    self.pending.clear();
                } else {
                    match ids_of(&call.args) {
                        Some(ids) => self.pending.retain(|p| !ids.contains(&p.id)),
                        None => return NativeReply::Rejected(String::from("bad arguments")),
                    }
                }
                NativeReply::Resolved(Json::Null)
            }
            Command::GetPending => NativeReply::Resolved(Json::Array(
                self.pending.iter().map(|p| p.to_json()).collect(),
            )),
            Command::CreateChannel => match Channel::from_json(&call.args) {
                Ok(channel) => {
                    self.channels.push(channel.id);
                    NativeReply::Resolved(Json::Null)
                }
                Err(_) => NativeReply::Rejected(String::from("bad channel")),
            },
            Command::RegisterActionTypes => {
                let types = call.args.get("types").and_then(|t| t.as_array());
                match types {
                    Some(types) => {
                        for t in types {
                            match ActionType::from_json(t) {
                                Ok(t) => self.action_types.push(t.id),
                                Err(_) => {
                                    return NativeReply::Rejected(String::from("bad action type"))
                                }
                            }
                        }
                        NativeReply::Resolved(Json::Null)
                    }
                    None => NativeReply::Rejected(String::from("bad arguments")),
                }
            }
            Command::Show => match NotificationData::from_json(&call.args) {
                Ok(data) => match data.channel_id {
                    Some(channel) if !self.channels.contains(&channel) => {
                        NativeReply::Rejected(format!("channel {} does not exist", channel))
                    }
                    _ => NativeReply::Resolved(Json::Int(data.id.unwrap_or(1) as i64)),
                },
                Err(_) => NativeReply::Rejected(String::from("bad notification")),
            },
            _ => NativeReply::Rejected(String::from("not answered here")),
        }
    }
}

fn pending(id: i32) -> PendingNotification {
    PendingNotification {
        id,
        schedule_time: 1000 + id as i64,
        notification: NotificationData {
            id: Some(id),
            title: Some(format!("n{}", id)),
            body: None,
            channel_id: None,
            extra: vec![],
        },
    }
}

fn android() -> Notification {
    init(Platform::Android, Json::Null).0
}

#[test]
fn cancel_with_ids_removes_only_those_from_the_pending_set() {
    let bridge = android();
    let mut plugin = FakePlugin::new(vec![pending(1), pending(2), pending(3), pending(4)]);
    assert_eq!(plugin.answer(bridge.cancel(vec![2, 4, 9])).into_unit(), Ok(()));
    assert_eq!(plugin.answer(bridge.pending()).into_pending(), Ok(vec![pending(1), pending(3)]));
}

#[test]
fn cancel_with_no_ids_removes_nothing() {
    let bridge = android();
    let mut plugin = FakePlugin::new(vec![pending(1), pending(2)]);
    assert_eq!(plugin.answer(bridge.cancel(vec![])).into_unit(), Ok(()));
    assert_eq!(plugin.answer(bridge.pending()).into_pending(), Ok(vec![pending(1), pending(2)]));
}

#[test]
fn cancel_all_empties_the_pending_set() {
    let bridge = android();
    let mut plugin = FakePlugin::new(vec![pending(1), pending(2), pending(3)]);
    assert_eq!(plugin.answer(bridge.cancel_all()).into_unit(), Ok(()));
    assert_eq!(plugin.answer(bridge.pending()).into_pending(), Ok(vec![]));
}

#[test]
fn show_on_an_undeclared_channel_is_an_invoke_error() {
    let bridge = android();
    let mut plugin = FakePlugin::new(vec![]);
    let reply = ActionType {
        id: String::from("reply"),
        actions: vec![Action { id: String::from("send"), title: String::from("Send") }],
    };
    assert_eq!(plugin.answer(bridge.register_action_types(vec![reply])).into_unit(), Ok(()));
    assert_eq!(plugin.action_types, vec![String::from("reply")]);
    let shown = plugin
        .answer(bridge.builder().title("Hi").channel_id("undeclared").show())
        .into_shown();
    assert_eq!(
        shown,
        Err(BridgeError::Invoke(String::from("channel undeclared does not exist")))
    );
}

#[test]
fn show_on_a_declared_channel_goes_through() {
    let bridge = android();
    let mut plugin = FakePlugin::new(vec![]);
    let channel = Channel {
        id: String::from("news"),
        name: String::from("News"),
        importance: Importance::Default,
        description: None,
    };
    assert_eq!(plugin.answer(bridge.create_channel(channel).unwrap()).into_unit(), Ok(()));
    let shown = plugin.answer(bridge.builder().id(5).channel_id("news").show()).into_shown();
    assert_eq!(shown, Ok(()));
}

#[test]
fn two_reads_of_the_pending_set_agree() {
    let bridge = android();
    let mut plugin = FakePlugin::new(vec![pending(7), pending(8)]);
    let first = plugin.answer(bridge.pending()).into_pending();
    let second = plugin.answer(bridge.pending()).into_pending();
    assert_eq!(first, second);
    assert_eq!(first, Ok(vec![pending(7), pending(8)]));
}
