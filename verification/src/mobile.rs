//! The notification API of a mobile host: one call into the native plugin for
//! each operation, and the start-up of the bridge.
//!
//! Nothing here talks to the platform. Each operation yields the
//! [`PluginCall`] to send; the answer comes back as a
//! [`NativeReply`](crate::protocol::NativeReply) and is read with the reader
//! that the operation names.

use crate::error::BridgeError;
use crate::fields::{object, push_member, required_text, required_text_field};
use crate::json::{
    lemma_array_view, lemma_lookup_distinct, member_models, models, Json, JsonModel,
};
use crate::members::{
    distinct_keys, lemma_distinct_without, lemma_lookup_without, other_key, put,
};
use crate::models::{
    action_type_views, action_type_wires, action_types_to_json, ActionType, Channel,
    PendingNotificationView,
};
use crate::notification::{
    is_reserved, is_reserved_key, lemma_filter_none, lemma_notification_round_trip,
    NotificationData, NotificationDataView,
};
use crate::protocol::{Command, NativeReply, NativeReplyView, PluginCall, PluginCallView};
use vstd::prelude::*;

verus! {

/// The mobile platforms that have a native notification plugin.
#[derive(Debug, Clone, Copy, PartialEq, Eq, Structural)]
pub enum Platform {
    Android,
    Ios,
}

/// How the native plugin of a platform is registered with the host.
#[derive(Debug, Clone, Copy, PartialEq, Eq)]
pub enum PluginRegistration {
    /// Android: the plugin's package and the name of its class.
    Android { identifier: &'static str, class_name: &'static str },
    /// iOS: the symbol of the plugin's initialiser, linked statically.
    Ios { binding: &'static str },
}

/// The event by which the native side tells that the user acted on a
/// notification.
pub open spec fn action_performed_event() -> Seq<char> {
    "actionPerformed"@
}

/// The name under which a performed action is announced to the whole host.
pub open spec fn action_performed_host_event() -> Seq<char> {
    "notification-action-performed"@
}

/// The arguments of `registerListener`: the event, and the callback that the
/// native side is to invoke for it.
#[derive(Debug, Clone, PartialEq, Eq)]
pub struct RegisterListenerArgs {
    pub event: String,
    /// The callback, in the form in which the host hands a callback across
    /// the boundary.
    pub handler: Json,
}

/// The mathematical value of [`RegisterListenerArgs`].
pub struct RegisterListenerArgsView {
    pub event: Seq<char>,
    pub handler: JsonModel,
}

impl RegisterListenerArgsView {
    /// The wire object of the arguments.
    pub open spec fn to_json(self) -> JsonModel {
        JsonModel::Object(seq![("event"@, JsonModel::Text(self.event)), ("handler"@, self.handler)])
    }
}

impl View for RegisterListenerArgs {
    type V = RegisterListenerArgsView;

    open spec fn view(&self) -> RegisterListenerArgsView {
        RegisterListenerArgsView { event: self.event@, handler: self.handler@ }
    }
}

impl RegisterListenerArgs {
    /// The wire object of the arguments.
    pub fn to_json(&self) -> (json: Json)
        ensures
            json@ == self@.to_json(),
    {
        let mut members: Vec<(String, Json)> = Vec::new();
        push_member(&mut members, "event", Json::Text(self.event.clone()));
        push_member(&mut members, "handler", self.handler.clone());
        assert(member_models(members@) =~= seq![
            ("event"@, JsonModel::Text(self.event@)),
            ("handler"@, self.handler@),
        ]);
        object(members)
    }
}

/// What the native side sends when the user acts on a notification.
#[derive(Debug, Clone, PartialEq, Eq)]
pub struct NotificationActionPerformedPayload {
    pub action_id: String,
    pub notification: NotificationData,
}

/// The mathematical value of a [`NotificationActionPerformedPayload`].
pub struct NotificationActionPerformedPayloadView {
    pub action_id: Seq<char>,
    pub notification: NotificationDataView,
}

impl NotificationActionPerformedPayloadView {
    /// The wire object of a payload.
    pub open spec fn to_json(self) -> JsonModel {
        JsonModel::Object(
            seq![
                ("actionId"@, JsonModel::Text(self.action_id)),
                ("notification"@, self.notification.to_json()),
            ],
        )
    }

    /// The payload that a wire value holds.
    pub open spec fn from_json(json: JsonModel) -> Option<NotificationActionPerformedPayloadView> {
        let action_id = required_text(json.field("actionId"@));
        let notification = match json.field("notification"@) {
            Some(payload) => NotificationDataView::from_json(payload),
            None => None,
        };
        if action_id is Some && notification is Some {
            Some(
                NotificationActionPerformedPayloadView {
                    action_id: action_id->0,
                    notification: notification->0,
                },
            )
        } else {
            None
        }
    }
}

impl View for NotificationActionPerformedPayload {
    type V = NotificationActionPerformedPayloadView;

    open spec fn view(&self) -> NotificationActionPerformedPayloadView {
        NotificationActionPerformedPayloadView {
            action_id: self.action_id@,
            notification: self.notification@,
        }
    }
}

impl NotificationActionPerformedPayload {
    /// The wire object of the payload.
    pub fn to_json(&self) -> (json: Json)
        ensures
            json@ == self@.to_json(),
    {
        let mut members: Vec<(String, Json)> = Vec::new();
        push_member(&mut members, "actionId", Json::Text(self.action_id.clone()));
        push_member(&mut members, "notification", self.notification.to_json());
        assert(member_models(members@) =~= seq![
            ("actionId"@, JsonModel::Text(self.action_id@)),
            ("notification"@, self.notification@.to_json()),
        ]);
        object(members)
    }

    /// The payload that a wire value holds; [`BridgeError::Decode`] where
    /// `actionId` is not a string or `notification` is not a notification.
    pub fn from_json(json: &Json) -> (decoded: Result<
        NotificationActionPerformedPayload,
        BridgeError,
    >)
        ensures
            match NotificationActionPerformedPayloadView::from_json(json@) {
                Some(payload) => decoded matches Ok(p) && p@ == payload,
                None => decoded == Err::<NotificationActionPerformedPayload, BridgeError>(
                    BridgeError::Decode,
                ),
            },
    {
        let action_id = match required_text_field(json, "actionId") {
            Ok(action_id) => action_id,
            Err(e) => {
                return Err(e);
            },
        };
        let notification = match json.get("notification") {
            Some(payload) => match NotificationData::from_json(payload) {
                Ok(notification) => notification,
                Err(e) => {
                    return Err(e);
                },
            },
            None => {
                return Err(BridgeError::Decode);
            },
        };
        Ok(NotificationActionPerformedPayload { action_id, notification })
    }
}

/// Reading back the wire object of a payload gives the payload, where its
/// notification is valid.
pub proof fn lemma_payload_round_trip(payload: NotificationActionPerformedPayloadView)
    requires
        payload.notification.wf(),
    ensures
        NotificationActionPerformedPayloadView::from_json(payload.to_json()) == Some(payload),
{
    reveal_strlit("actionId");
    reveal_strlit("notification");
    assert("actionId"@.len() != "notification"@.len());
    let members = seq![
        ("actionId"@, JsonModel::Text(payload.action_id)),
        ("notification"@, payload.notification.to_json()),
    ];
    lemma_lookup_distinct(members, 0);
    lemma_lookup_distinct(members, 1);
    lemma_notification_round_trip(payload.notification);
}

/// What the answer to `getLaunchingNotification` holds. A value without a
/// member `notification` stands for "the app was not launched from a
/// notification"; only a value that has one is read as a payload, and has to
/// be one. The outer `None` is the decode failure.
pub open spec fn launching_of(value: JsonModel) -> Option<
    Option<NotificationActionPerformedPayloadView>,
> {
    if value.has_field("notification"@) {
        match NotificationActionPerformedPayloadView::from_json(value) {
            Some(payload) => Some(Some(payload)),
            None => None,
        }
    } else {
        Some(None)
    }
}

/// The payload of an optional result.
pub open spec fn payload_view(payload: Option<NotificationActionPerformedPayload>) -> Option<
    NotificationActionPerformedPayloadView,
> {
    match payload {
        Some(p) => Some(p@),
        None => None,
    }
}

impl NativeReply {
    /// The result of `getLaunchingNotification`: `None` where the reply's
    /// value has no member `notification`, the payload where it has one.
    pub fn into_launching_notification(self) -> (result: Result<
        Option<NotificationActionPerformedPayload>,
        BridgeError,
    >)
        ensures
            match self@ {
                NativeReplyView::Rejected(message) => result matches Err(BridgeError::Invoke(m))
                    && m@ == message,
                NativeReplyView::Resolved(value) => match launching_of(value) {
                    Some(launching) => result matches Ok(payload) && payload_view(payload)
                        == launching,
                    None => result == Err::<
                        Option<NotificationActionPerformedPayload>,
                        BridgeError,
                    >(BridgeError::Decode),
                },
            },
    {
        match self {
            NativeReply::Rejected(message) => Err(BridgeError::Invoke(message)),
            NativeReply::Resolved(value) => {
                if value.get("notification").is_some() {
                    match NotificationActionPerformedPayload::from_json(&value) {
                        Ok(payload) => Ok(Some(payload)),
                        Err(e) => Err(e),
                    }
                } else {
                    Ok(None)
                }
            },
        }
    }
}

/// The wire values of a list of identifiers.
pub open spec fn id_wires(ids: Seq<i32>) -> Seq<JsonModel> {
    Seq::new(ids.len(), |i: int| JsonModel::Int(ids[i] as int))
}

/// The wire values of a list of identifiers, each in an object of its own
/// under the key `id`.
pub open spec fn id_object_wires(ids: Seq<i32>) -> Seq<JsonModel> {
    Seq::new(ids.len(), |i: int| JsonModel::Object(seq![("id"@, JsonModel::Int(ids[i] as int))]))
}

/// An object with one member.
pub open spec fn single(key: Seq<char>, value: JsonModel) -> JsonModel {
    JsonModel::Object(seq![(key, value)])
}

/// Whether a `cancel` call with these arguments names the pending
/// notification `id`: without arguments it names every one, with a list
/// under `notifications` those that the list holds.
pub open spec fn cancel_names(args: JsonModel, id: i32) -> bool {
    match args {
        JsonModel::Null => true,
        _ => match args.field("notifications"@) {
            Some(JsonModel::Array(ids)) => ids.contains(JsonModel::Int(id as int)),
            _ => false,
        },
    }
}

/// The test that a pending notification passes when a `cancel` call with
/// these arguments does not name it.
pub open spec fn survives(args: JsonModel) -> spec_fn(PendingNotificationView) -> bool {
    |pending: PendingNotificationView| !cancel_names(args, pending.id)
}

/// What a `cancel` call with these arguments leaves of a pending set: the
/// notifications that it does not name, in their order.
pub open spec fn pending_after_cancel(
    pending: Seq<PendingNotificationView>,
    args: JsonModel,
) -> Seq<PendingNotificationView> {
    pending.filter(survives(args))
}

/// The arguments of [`Notification::cancel`] name the given identifiers and
/// no others.
pub proof fn lemma_cancel_names_the_given(ids: Seq<i32>, id: i32)
    ensures
        cancel_names(single("notifications"@, JsonModel::Array(id_wires(ids))), id)
            <==> ids.contains(id),
{
    let wires = id_wires(ids);
    lemma_lookup_distinct(seq![("notifications"@, JsonModel::Array(wires))], 0);
    if ids.contains(id) {
        let i = choose|i: int| 0 <= i < ids.len() && ids[i] == id;
        assert(wires[i] == JsonModel::Int(id as int));
    }
    if wires.contains(JsonModel::Int(id as int)) {
        let i = choose|i: int| 0 <= i < wires.len() && wires[i] == JsonModel::Int(id as int);
        assert(ids[i] == id);
    }
}

/// A `cancel` with a list of identifiers removes those from a pending set
/// and leaves every other notification where it was.
pub proof fn lemma_cancel_leaves_the_others(pending: Seq<PendingNotificationView>, ids: Seq<i32>)
    ensures
        ({
            let args = single("notifications"@, JsonModel::Array(id_wires(ids)));
            let left = pending_after_cancel(pending, args);
            &&& forall|i: int| 0 <= i < left.len() ==> !ids.contains((#[trigger] left[i]).id)
            &&& forall|i: int|
                0 <= i < pending.len() && !ids.contains((#[trigger] pending[i]).id)
                    ==> left.contains(pending[i])
            &&& forall|i: int| 0 <= i < left.len() ==> pending.contains(#[trigger] left[i])
        }),
{
    let args = single("notifications"@, JsonModel::Array(id_wires(ids)));
    let left = pending_after_cancel(pending, args);
    assert forall|i: int| 0 <= i < left.len() implies !ids.contains((#[trigger] left[i]).id) by {
        pending.lemma_filter_pred(survives(args), i);
        lemma_cancel_names_the_given(ids, left[i].id);
    }
    assert forall|i: int|
        0 <= i < pending.len() && !ids.contains((#[trigger] pending[i]).id) implies left.contains(
        pending[i],
    ) by {
        lemma_cancel_names_the_given(ids, pending[i].id);
        pending.lemma_filter_contains(survives(args), i);
    }
    assert forall|i: int| 0 <= i < left.len() implies pending.contains(#[trigger] left[i]) by {
        pending.lemma_filter_contains_rev(survives(args), left[i]);
    }
}

/// A `cancel` without arguments leaves nothing of a pending set.
pub proof fn lemma_cancel_all_leaves_none(pending: Seq<PendingNotificationView>)
    ensures
        pending_after_cancel(pending, JsonModel::Null) == Seq::<PendingNotificationView>::empty(),
{
    lemma_filter_none(pending, survives(JsonModel::Null));
}

/// An object with one member.
fn single_member(key: &str, value: Json) -> (json: Json)
    ensures
        json@ == single(key@, value@),
{
    let mut members: Vec<(String, Json)> = Vec::new();
    push_member(&mut members, key, value);
    assert(member_models(members@) =~= seq![(key@, value@)]);
    object(members)
}

/// The wire array of a list of identifiers.
fn ids_to_json(ids: &Vec<i32>) -> (json: Json)
    ensures
        json@ == JsonModel::Array(id_wires(ids@)),
{
    let mut items: Vec<Json> = Vec::new();
    let mut i: usize = 0;
    while i < ids.len()
        invariant
            i <= ids.len(),
            items.len() == i,
            forall|k: int| 0 <= k < i ==> (#[trigger] items@[k])@ == JsonModel::Int(ids@[k] as int),
        decreases ids.len() - i,
    {
        items.push(Json::Int(ids[i] as i64));
        i = i + 1;
    }
    proof {
        lemma_array_view(items);
        assert(models(items@) =~= id_wires(ids@));
    }
    Json::Array(items)
}

/// The wire array of a list of identifiers, each in an object of its own.
fn id_objects_to_json(ids: &Vec<i32>) -> (json: Json)
    ensures
        json@ == JsonModel::Array(id_object_wires(ids@)),
{
    let mut items: Vec<Json> = Vec::new();
    let mut i: usize = 0;
    while i < ids.len()
        invariant
            i <= ids.len(),
            items.len() == i,
            forall|k: int|
                0 <= k < i ==> (#[trigger] items@[k])@ == single(
                    "id"@,
                    JsonModel::Int(ids@[k] as int),
                ),
        decreases ids.len() - i,
    {
        items.push(single_member("id", Json::Int(ids[i] as i64)));
        i = i + 1;
    }
    proof {
        lemma_array_view(items);
        assert(models(items@) =~= id_object_wires(ids@));
    }
    Json::Array(items)
}

/// Access to the notification API of one platform.
#[derive(Debug, Clone, Copy, PartialEq, Eq)]
pub struct Notification {
    platform: Platform,
}

/// The notification API of a platform, and the call that registers the
/// listener for performed actions.
///
/// On Android the bridge asks the native side to send every `actionPerformed`
/// event to `handler`; that call is to be sent once, before any other. On iOS
/// there is no such call.
pub fn init(platform: Platform, handler: Json) -> (started: (Notification, Option<PluginCall>))
    ensures
        started.0.spec_platform() == platform,
        match platform {
            Platform::Android => started.1 matches Some(call) && call@ == (PluginCallView {
                command: Command::RegisterListener,
                args: (RegisterListenerArgsView {
                    event: action_performed_event(),
                    handler: handler@,
                }).to_json(),
            }),
            Platform::Ios => started.1 is None,
        },
{
    let notification = Notification { platform };
    match platform {
        Platform::Android => {
            let args = RegisterListenerArgs { event: "actionPerformed".to_owned(), handler };
            let call = PluginCall::with_args(Command::RegisterListener, args.to_json());
            (notification, Some(call))
        },
        Platform::Ios => (notification, None),
    }
}

impl Notification {
    /// The platform whose plugin is addressed.
    pub closed spec fn spec_platform(self) -> Platform {
        self.platform
    }

    /// The platform whose plugin is addressed.
    pub fn platform(&self) -> (platform: Platform)
        ensures
            platform == self.spec_platform(),
    {
        self.platform
    }

    /// How the native plugin is registered with the host.
    pub fn registration(&self) -> (registration: PluginRegistration)
        ensures
            match self.spec_platform() {
                Platform::Android => registration matches PluginRegistration::Android {
                    identifier,
                    class_name,
                } && identifier@ == "app.tauri.notification"@ && class_name@
                    == "NotificationPlugin"@,
                Platform::Ios => registration matches PluginRegistration::Ios { binding }
                    && binding@ == "init_plugin_notification"@,
            },
    {
        match self.platform {
            Platform::Android => PluginRegistration::Android {
                identifier: "app.tauri.notification",
                class_name: "NotificationPlugin",
            },
            Platform::Ios => PluginRegistration::Ios { binding: "init_plugin_notification" },
        }
    }

    /// A builder for a notification to show.
    pub fn builder(&self) -> (builder: NotificationBuilder)
        ensures
            builder@ == NotificationDataView::empty(),
    {
        NotificationBuilder::new()
    }

    /// Asks for the notification that launched the app. Read the answer with
    /// [`NativeReply::into_launching_notification`].
    pub fn get_launching_notification(&self) -> (call: PluginCall)
        ensures
            call@ == (PluginCallView {
                command: Command::GetLaunchingNotification,
                args: JsonModel::Null,
            }),
    {
        PluginCall::bare(Command::GetLaunchingNotification)
    }

    /// Asks to register for push notifications. Read the answer, the push
    /// token, with [`NativeReply::into_token`].
    pub fn register_for_push_notifications(&self) -> (call: PluginCall)
        ensures
            call@ == (PluginCallView {
                command: Command::RegisterForPushNotifications,
                args: JsonModel::Null,
            }),
    {
        PluginCall::bare(Command::RegisterForPushNotifications)
    }

    /// Asks for the token of Firebase Cloud Messaging. Read the answer with
    /// [`NativeReply::into_token`].
    pub fn get_fcm_token(&self) -> (call: PluginCall)
        ensures
            call@ == (PluginCallView { command: Command::GetFcmToken, args: JsonModel::Null }),
    {
        PluginCall::bare(Command::GetFcmToken)
    }

    /// Asks the user for the permission to send notifications. Read the
    /// answer with [`NativeReply::into_permission`].
    pub fn request_permission(&self) -> (call: PluginCall)
        ensures
            call@ == (PluginCallView {
                command: Command::RequestPermissions,
                args: JsonModel::Null,
            }),
    {
        PluginCall::bare(Command::RequestPermissions)
    }

    /// Asks for the permission state. Read the answer with
    /// [`NativeReply::into_permission`].
    pub fn permission_state(&self) -> (call: PluginCall)
        ensures
            call@ == (PluginCallView { command: Command::CheckPermissions, args: JsonModel::Null }),
    {
        PluginCall::bare(Command::CheckPermissions)
    }

    /// Registers action types, in an object under the key `types`. Read the
    /// answer with [`NativeReply::into_unit`].
    pub fn register_action_types(&self, types: Vec<ActionType>) -> (call: PluginCall)
        ensures
            call@ == (PluginCallView {
                command: Command::RegisterActionTypes,
                args: single(
                    "types"@,
                    JsonModel::Array(action_type_wires(action_type_views(types@))),
                ),
            }),
    {
        let args = single_member("types", action_types_to_json(&types));
        PluginCall::with_args(Command::RegisterActionTypes, args)
    }

    /// Removes the active notifications with the given identifiers, and no
    /// others: the arguments list each identifier in an object of its own.
    /// Read the answer with [`NativeReply::into_unit`].
    pub fn remove_active(&self, notifications: Vec<i32>) -> (call: PluginCall)
        ensures
            call@ == (PluginCallView {
                command: Command::RemoveActive,
                args: single("notifications"@, JsonModel::Array(id_object_wires(notifications@))),
            }),
    {
        let args = single_member("notifications", id_objects_to_json(&notifications));
        PluginCall::with_args(Command::RemoveActive, args)
    }

    /// Asks for the active notifications. Read the answer with
    /// [`NativeReply::into_active`].
    pub fn active(&self) -> (call: PluginCall)
        ensures
            call@ == (PluginCallView { command: Command::GetActive, args: JsonModel::Null }),
    {
        PluginCall::bare(Command::GetActive)
    }

    /// Removes all active notifications: the command of
    /// [`remove_active`](Self::remove_active), without arguments. Read the
    /// answer with [`NativeReply::into_unit`].
    pub fn remove_all_active(&self) -> (call: PluginCall)
        ensures
            call@ == (PluginCallView { command: Command::RemoveActive, args: JsonModel::Null }),
    {
        PluginCall::bare(Command::RemoveActive)
    }

    /// Asks for the pending notifications. Read the answer with
    /// [`NativeReply::into_pending`].
    pub fn pending(&self) -> (call: PluginCall)
        ensures
            call@ == (PluginCallView { command: Command::GetPending, args: JsonModel::Null }),
    {
        PluginCall::bare(Command::GetPending)
    }

    /// Cancels the pending notifications with the given identifiers, and no
    /// others: the arguments list exactly these. Read the answer with
    /// [`NativeReply::into_unit`].
    pub fn cancel(&self, notifications: Vec<i32>) -> (call: PluginCall)
        ensures
            call@ == (PluginCallView {
                command: Command::Cancel,
                args: single("notifications"@, JsonModel::Array(id_wires(notifications@))),
            }),
    {
        let args = single_member("notifications", ids_to_json(&notifications));
        PluginCall::with_args(Command::Cancel, args)
    }

    /// Cancels all pending notifications: the command of
    /// [`cancel`](Self::cancel), without arguments. Read the answer with
    /// [`NativeReply::into_unit`].
    pub fn cancel_all(&self) -> (call: PluginCall)
        ensures
            call@ == (PluginCallView { command: Command::Cancel, args: JsonModel::Null }),
    {
        PluginCall::bare(Command::Cancel)
    }

    /// Creates a notification channel; there is such a call on Android
    /// only. Read the answer with [`NativeReply::into_unit`].
    pub fn create_channel(&self, channel: Channel) -> (call: Option<PluginCall>)
        ensures
            match self.spec_platform() {
                Platform::Android => call matches Some(c) && c@ == (PluginCallView {
                    command: Command::CreateChannel,
                    args: channel@.to_json(),
                }),
                Platform::Ios => call is None,
            },
    {
        match self.platform {
            Platform::Android => Some(
                PluginCall::with_args(Command::CreateChannel, channel.to_json()),
            ),
            Platform::Ios => None,
        }
    }

    /// Deletes a notification channel; there is such a call on Android
    /// only. Read the answer with [`NativeReply::into_unit`].
    pub fn delete_channel(&self, id: &str) -> (call: Option<PluginCall>)
        ensures
            match self.spec_platform() {
                Platform::Android => call matches Some(c) && c@ == (PluginCallView {
                    command: Command::DeleteChannel,
                    args: single("id"@, JsonModel::Text(id@)),
                }),
                Platform::Ios => call is None,
            },
    {
        match self.platform {
            Platform::Android => {
                let args = single_member("id", Json::Text(id.to_owned()));
                Some(PluginCall::with_args(Command::DeleteChannel, args))
            },
            Platform::Ios => None,
        }
    }

    /// Asks for the notification channels; there is such a call on Android
    /// only. Read the answer with [`NativeReply::into_channels`].
    pub fn list_channels(&self) -> (call: Option<PluginCall>)
        ensures
            match self.spec_platform() {
                Platform::Android => call matches Some(c) && c@ == (PluginCallView {
                    command: Command::ListChannels,
                    args: JsonModel::Null,
                }),
                Platform::Ios => call is None,
            },
    {
        match self.platform {
            Platform::Android => Some(PluginCall::bare(Command::ListChannels)),
            Platform::Ios => None,
        }
    }
}

/// Collects what a notification is to hold, and shows it.
#[derive(Debug, Clone, PartialEq, Eq)]
pub struct NotificationBuilder {
    data: NotificationData,
}

impl View for NotificationBuilder {
    type V = NotificationDataView;

    closed spec fn view(&self) -> NotificationDataView {
        self.data@
    }
}

impl NotificationBuilder {
    /// A builder whose notification holds nothing yet.
    pub fn new() -> (builder: NotificationBuilder)
        ensures
            builder@ == NotificationDataView::empty(),
            builder@.wf(),
    {
        NotificationBuilder { data: NotificationData::new() }
    }

    /// Sets the identifier.
    pub fn id(self, id: i32) -> (builder: NotificationBuilder)
        ensures
            builder@ == (NotificationDataView { id: Some(id), ..self@ }),
    {
        let mut data = self.data;
        data.id = Some(id);
        NotificationBuilder { data }
    }

    /// Sets the title.
    pub fn title(self, title: &str) -> (builder: NotificationBuilder)
        ensures
            builder@ == (NotificationDataView { title: Some(title@), ..self@ }),
    {
        let mut data = self.data;
        data.title = Some(title.to_owned());
        NotificationBuilder { data }
    }

    /// Sets the body.
    pub fn body(self, body: &str) -> (builder: NotificationBuilder)
        ensures
            builder@ == (NotificationDataView { body: Some(body@), ..self@ }),
    {
        let mut data = self.data;
        data.body = Some(body.to_owned());
        NotificationBuilder { data }
    }

    /// Sets the Android channel to post the notification under.
    pub fn channel_id(self, channel_id: &str) -> (builder: NotificationBuilder)
        ensures
            builder@ == (NotificationDataView { channel_id: Some(channel_id@), ..self@ }),
    {
        let mut data = self.data;
        data.channel_id = Some(channel_id.to_owned());
        NotificationBuilder { data }
    }

    /// Puts an extra member in; it replaces an extra of its key. A key that
    /// names one of the record's own members is not an extra, and nothing is
    /// put in for it.
    pub fn extra(self, key: &str, value: Json) -> (builder: NotificationBuilder)
        ensures
            builder@ == (NotificationDataView {
                extra: if is_reserved(key@) {
                    self@.extra
                } else {
                    self@.extra.filter(other_key(key@)).push((key@, value@))
                },
                ..self@
            }),
            self@.wf() ==> builder@.wf(),
    {
        let mut data = self.data;
        if !is_reserved_key(key) {
            let ghost before = member_models(data.extra@);
            data.extra = put(&data.extra, key, value);
            proof {
                if distinct_keys(before) {
                    let kept = before.filter(other_key(key@));
                    lemma_distinct_without(before, key@);
                    lemma_lookup_without(before, key@, key@);
                    assert(kept.push((key@, value@)).drop_last() =~= kept);
                }
                assert forall|i: int|
                    0 <= i < before.filter(other_key(key@)).len() && self@.wf() implies !is_reserved(
                    (#[trigger] before.filter(other_key(key@))[i]).0,
                ) by {
                    let kept = before.filter(other_key(key@));
                    assert(kept.contains(kept[i]));
                    before.lemma_filter_contains_rev(other_key(key@), kept[i]);
                }
            }
        }
        NotificationBuilder { data }
    }

    /// The notification as collected so far.
    pub fn data(&self) -> (data: &NotificationData)
        ensures
            data@ == self@,
    {
        &self.data
    }

    /// Shows the notification. Read the answer with
    /// [`NativeReply::into_shown`].
    pub fn show(self) -> (call: PluginCall)
        ensures
            call@ == (PluginCallView { command: Command::Show, args: self@.to_json() }),
    {
        PluginCall::with_args(Command::Show, self.data.to_json())
    }
}

} // verus!
