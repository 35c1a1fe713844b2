//! The records of the notification domain, other than the notification
//! itself, and their wire shapes.
//!
//! Every record is a JSON object with lowerCamelCase keys. A decoder reads
//! the members that it knows and passes over the others.

use crate::error::BridgeError;
use crate::fields::{
    object, optional_text, optional_text_field, push_member, push_text_member, required_i32_field,
    required_i64_field, required_int, required_long, required_text, required_text_field,
    text_member, text_model,
};
use crate::json::{
    lemma_array_view, lemma_lookup_absent, lemma_lookup_distinct, member_models, models, same_text,
    Json, JsonModel,
};
use crate::notification::{
    lemma_notification_round_trip, NotificationData, NotificationDataView,
};
use vstd::prelude::*;

verus! {

/// What a list of wire values decodes to, element by element: `None` as soon
/// as one element does not decode.
pub open spec fn decode_each<T>(
    items: Seq<JsonModel>,
    decode: spec_fn(JsonModel) -> Option<T>,
) -> Option<Seq<T>> {
    if forall|i: int| 0 <= i < items.len() ==> decode(#[trigger] items[i]) is Some {
        Some(Seq::new(items.len(), |i: int| decode(items[i])->0))
    } else {
        None
    }
}

/// What a wire array decodes to, element by element: `None` where the value
/// is not an array or one element does not decode.
pub open spec fn decode_list<T>(json: JsonModel, decode: spec_fn(JsonModel) -> Option<T>) -> Option<
    Seq<T>,
> {
    match json {
        JsonModel::Array(items) => decode_each(items, decode),
        _ => None,
    }
}

/// Whether the user may be shown notifications.
#[derive(Debug, Clone, Copy, PartialEq, Eq, Structural)]
pub enum PermissionState {
    Granted,
    Denied,
    /// Not decided yet: the platform will ask.
    Prompt,
}

impl PermissionState {
    /// The wire text of a state.
    pub open spec fn wire(self) -> Seq<char> {
        match self {
            PermissionState::Granted => "granted"@,
            PermissionState::Denied => "denied"@,
            PermissionState::Prompt => "prompt"@,
        }
    }

    /// The state that a wire text names.
    pub open spec fn unwire(text: Seq<char>) -> Option<PermissionState> {
        if text == "granted"@ {
            Some(PermissionState::Granted)
        } else if text == "denied"@ {
            Some(PermissionState::Denied)
        } else if text == "prompt"@ {
            Some(PermissionState::Prompt)
        } else {
            None
        }
    }

    /// The state that a wire value holds: a string that names one.
    pub open spec fn spec_from_json(json: JsonModel) -> Option<PermissionState> {
        match json {
            JsonModel::Text(text) => Self::unwire(text),
            _ => None,
        }
    }

    /// The wire value of the state.
    pub fn to_json(&self) -> (json: Json)
        ensures
            json@ == JsonModel::Text(self.wire()),
    {
        match self {
            PermissionState::Granted => Json::Text("granted".to_owned()),
            PermissionState::Denied => Json::Text("denied".to_owned()),
            PermissionState::Prompt => Json::Text("prompt".to_owned()),
        }
    }

    /// The state that a wire value holds; [`BridgeError::Decode`] where the
    /// value is not one of the three names.
    pub fn from_json(json: &Json) -> (decoded: Result<PermissionState, BridgeError>)
        ensures
            match Self::spec_from_json(json@) {
                Some(state) => decoded == Ok::<PermissionState, BridgeError>(state),
                None => decoded == Err::<PermissionState, BridgeError>(BridgeError::Decode),
            },
    {
        match json.as_text() {
            Some(text) => {
                if same_text(text, "granted") {
                    Ok(PermissionState::Granted)
                } else if same_text(text, "denied") {
                    Ok(PermissionState::Denied)
                } else if same_text(text, "prompt") {
                    Ok(PermissionState::Prompt)
                } else {
                    Err(BridgeError::Decode)
                }
            },
            None => Err(BridgeError::Decode),
        }
    }
}

/// Reading back the wire text of a state gives the state.
pub proof fn lemma_permission_round_trip(state: PermissionState)
    ensures
        PermissionState::spec_from_json(JsonModel::Text(state.wire())) == Some(state),
{
    reveal_strlit("granted");
    reveal_strlit("denied");
    reveal_strlit("prompt");
    assert("granted"@.len() == 7);
    assert("denied"@.len() == 6);
    assert("prompt"@[0] == 'p');
    assert("denied"@[0] == 'd');
}

/// How much a channel's notifications may intrude.
#[derive(Debug, Clone, Copy, PartialEq, Eq, Structural)]
pub enum Importance {
    /// The channel's notifications are not shown.
    Off,
    Min,
    Low,
    Default,
    High,
}

impl Importance {
    /// The wire level of an importance: 0 for `Off` up to 4 for `High`.
    pub open spec fn level(self) -> int {
        match self {
            Importance::Off => 0,
            Importance::Min => 1,
            Importance::Low => 2,
            Importance::Default => 3,
            Importance::High => 4,
        }
    }

    /// The importance of a wire level.
    pub open spec fn of_level(level: int) -> Option<Importance> {
        if level == 0 {
            Some(Importance::Off)
        } else if level == 1 {
            Some(Importance::Min)
        } else if level == 2 {
            Some(Importance::Low)
        } else if level == 3 {
            Some(Importance::Default)
        } else if level == 4 {
            Some(Importance::High)
        } else {
            None
        }
    }

    /// The importance that a wire value holds: a number from 0 to 4.
    pub open spec fn spec_from_json(json: JsonModel) -> Option<Importance> {
        match json {
            JsonModel::Int(level) => Self::of_level(level),
            _ => None,
        }
    }

    /// The wire level.
    pub fn to_level(&self) -> (level: i32)
        ensures
            level == self.level(),
    {
        match self {
            Importance::Off => 0,
            Importance::Min => 1,
            Importance::Low => 2,
            Importance::Default => 3,
            Importance::High => 4,
        }
    }

    /// The importance of a wire level; `None` outside 0 to 4.
    pub fn from_level(level: i64) -> (importance: Option<Importance>)
        ensures
            importance == Self::of_level(level as int),
    {
        if level == 0 {
            Some(Importance::Off)
        } else if level == 1 {
            Some(Importance::Min)
        } else if level == 2 {
            Some(Importance::Low)
        } else if level == 3 {
            Some(Importance::Default)
        } else if level == 4 {
            Some(Importance::High)
        } else {
            None
        }
    }
}

/// Reading back the wire level of an importance gives the importance.
pub proof fn lemma_importance_round_trip(importance: Importance)
    ensures
        Importance::of_level(importance.level()) == Some(importance),
{
}

/// One thing that the user can do with a notification.
#[derive(Debug, Clone, PartialEq, Eq)]
pub struct Action {
    pub id: String,
    pub title: String,
}

/// The mathematical value of an [`Action`].
pub struct ActionView {
    pub id: Seq<char>,
    pub title: Seq<char>,
}

impl ActionView {
    /// The wire object of an action.
    pub open spec fn to_json(self) -> JsonModel {
        JsonModel::Object(
            seq![("id"@, JsonModel::Text(self.id)), ("title"@, JsonModel::Text(self.title))],
        )
    }

    /// The action that a wire value holds.
    pub open spec fn from_json(json: JsonModel) -> Option<ActionView> {
        let id = required_text(json.field("id"@));
        let title = required_text(json.field("title"@));
        if id is Some && title is Some {
            Some(ActionView { id: id->0, title: title->0 })
        } else {
            None
        }
    }
}

impl View for Action {
    type V = ActionView;

    open spec fn view(&self) -> ActionView {
        ActionView { id: self.id@, title: self.title@ }
    }
}

impl Action {
    /// The wire object of the action.
    pub fn to_json(&self) -> (json: Json)
        ensures
            json@ == self@.to_json(),
    {
        let mut members: Vec<(String, Json)> = Vec::new();
        push_member(&mut members, "id", Json::Text(self.id.clone()));
        push_member(&mut members, "title", Json::Text(self.title.clone()));
        assert(member_models(members@) =~= seq![
            ("id"@, JsonModel::Text(self.id@)),
            ("title"@, JsonModel::Text(self.title@)),
        ]);
        object(members)
    }

    /// The action that a wire value holds; [`BridgeError::Decode`] where
    /// `id` or `title` is missing or is not a string.
    pub fn from_json(json: &Json) -> (decoded: Result<Action, BridgeError>)
        ensures
            match ActionView::from_json(json@) {
                Some(action) => decoded matches Ok(a) && a@ == action,
                None => decoded == Err::<Action, BridgeError>(BridgeError::Decode),
            },
    {
        let id = match required_text_field(json, "id") {
            Ok(id) => id,
            Err(e) => {
                return Err(e);
            },
        };
        let title = match required_text_field(json, "title") {
            Ok(title) => title,
            Err(e) => {
                return Err(e);
            },
        };
        Ok(Action { id, title })
    }
}

/// The decoder of one action, for [`decode_list`].
pub open spec fn action_decoder() -> spec_fn(JsonModel) -> Option<ActionView> {
    |json: JsonModel| ActionView::from_json(json)
}

/// The values of a list of actions.
pub open spec fn action_views(actions: Seq<Action>) -> Seq<ActionView> {
    Seq::new(actions.len(), |i: int| actions[i]@)
}

/// The wire values of a list of actions.
pub open spec fn action_wires(actions: Seq<ActionView>) -> Seq<JsonModel> {
    Seq::new(actions.len(), |i: int| actions[i].to_json())
}

/// The wire array of a list of actions.
pub fn actions_to_json(actions: &Vec<Action>) -> (json: Json)
    ensures
        json@ == JsonModel::Array(action_wires(action_views(actions@))),
{
    let mut items: Vec<Json> = Vec::new();
    let mut i: usize = 0;
    while i < actions.len()
        invariant
            i <= actions.len(),
            items.len() == i,
            forall|k: int| 0 <= k < i ==> (#[trigger] items@[k])@ == actions@[k]@.to_json(),
        decreases actions.len() - i,
    {
        items.push(actions[i].to_json());
        i = i + 1;
    }
    proof {
        lemma_array_view(items);
        assert(models(items@) =~= action_wires(action_views(actions@)));
    }
    Json::Array(items)
}

/// The actions that a wire array holds; [`BridgeError::Decode`] where the
/// value is not an array of actions.
pub fn actions_from_json(json: &Json) -> (decoded: Result<Vec<Action>, BridgeError>)
    ensures
        match decode_list(json@, action_decoder()) {
            Some(actions) => decoded matches Ok(list) && action_views(list@) == actions,
            None => decoded == Err::<Vec<Action>, BridgeError>(BridgeError::Decode),
        },
{
    let items = match json.as_array() {
        Some(items) => items,
        None => {
            return Err(BridgeError::Decode);
        },
    };
    let ghost decode = action_decoder();
    let mut actions: Vec<Action> = Vec::new();
    let mut i: usize = 0;
    while i < items.len()
        invariant
            i <= items.len(),
            actions.len() == i,
            json@ == JsonModel::Array(models(items@)),
            forall|k: int|
                0 <= k < i ==> ActionView::from_json(#[trigger] models(items@)[k]) == Some(
                    actions@[k]@,
                ),
        decreases items.len() - i,
    {
        match Action::from_json(&items[i]) {
            Ok(action) => {
                actions.push(action);
            },
            Err(e) => {
                assert(ActionView::from_json(models(items@)[i as int]) is None);
                assert(action_decoder()(models(items@)[i as int]) is None);
                return Err(e);
            },
        }
        i = i + 1;
    }
    proof {
        assert forall|k: int| 0 <= k < items.len() implies decode(#[trigger] models(items@)[k])
            is Some by {
            assert(ActionView::from_json(models(items@)[k]) == Some(actions@[k]@));
        }
        assert(action_views(actions@) =~= decode_each(models(items@), decode)->0);
    }
    Ok(actions)
}

/// A named set of actions that a notification can offer.
#[derive(Debug, Clone, PartialEq, Eq)]
pub struct ActionType {
    pub id: String,
    pub actions: Vec<Action>,
}

/// The mathematical value of an [`ActionType`].
pub struct ActionTypeView {
    pub id: Seq<char>,
    pub actions: Seq<ActionView>,
}

impl ActionTypeView {
    /// The wire object of an action type.
    pub open spec fn to_json(self) -> JsonModel {
        JsonModel::Object(
            seq![
                ("id"@, JsonModel::Text(self.id)),
                ("actions"@, JsonModel::Array(action_wires(self.actions))),
            ],
        )
    }

    /// The action type that a wire value holds.
    pub open spec fn from_json(json: JsonModel) -> Option<ActionTypeView> {
        let id = required_text(json.field("id"@));
        let actions = match json.field("actions"@) {
            Some(list) => decode_list(list, action_decoder()),
            None => None,
        };
        if id is Some && actions is Some {
            Some(ActionTypeView { id: id->0, actions: actions->0 })
        } else {
            None
        }
    }
}

impl View for ActionType {
    type V = ActionTypeView;

    open spec fn view(&self) -> ActionTypeView {
        ActionTypeView { id: self.id@, actions: action_views(self.actions@) }
    }
}

impl ActionType {
    /// The wire object of the action type.
    pub fn to_json(&self) -> (json: Json)
        ensures
            json@ == self@.to_json(),
    {
        let mut members: Vec<(String, Json)> = Vec::new();
        push_member(&mut members, "id", Json::Text(self.id.clone()));
        push_member(&mut members, "actions", actions_to_json(&self.actions));
        assert(member_models(members@) =~= seq![
            ("id"@, JsonModel::Text(self.id@)),
            ("actions"@, JsonModel::Array(action_wires(action_views(self.actions@)))),
        ]);
        object(members)
    }

    /// The action type that a wire value holds; [`BridgeError::Decode`]
    /// where `id` is not a string or `actions` is not an array of actions.
    pub fn from_json(json: &Json) -> (decoded: Result<ActionType, BridgeError>)
        ensures
            match ActionTypeView::from_json(json@) {
                Some(action_type) => decoded matches Ok(t) && t@ == action_type,
                None => decoded == Err::<ActionType, BridgeError>(BridgeError::Decode),
            },
    {
        let id = match required_text_field(json, "id") {
            Ok(id) => id,
            Err(e) => {
                return Err(e);
            },
        };
        let actions = match json.get("actions") {
            Some(list) => match actions_from_json(list) {
                Ok(actions) => actions,
                Err(e) => {
                    return Err(e);
                },
            },
            None => {
                return Err(BridgeError::Decode);
            },
        };
        Ok(ActionType { id, actions })
    }
}

/// A notification category of Android, with its display properties.
#[derive(Debug, Clone, PartialEq, Eq)]
pub struct Channel {
    pub id: String,
    pub name: String,
    pub importance: Importance,
    pub description: Option<String>,
}

/// The mathematical value of a [`Channel`].
pub struct ChannelView {
    pub id: Seq<char>,
    pub name: Seq<char>,
    pub importance: Importance,
    pub description: Option<Seq<char>>,
}

impl ChannelView {
    /// The wire object of a channel.
    pub open spec fn to_json(self) -> JsonModel {
        JsonModel::Object(
            seq![
                ("id"@, JsonModel::Text(self.id)),
                ("name"@, JsonModel::Text(self.name)),
                ("importance"@, JsonModel::Int(self.importance.level())),
            ] + text_member("description"@, self.description),
        )
    }

    /// The channel that a wire value holds.
    pub open spec fn from_json(json: JsonModel) -> Option<ChannelView> {
        let id = required_text(json.field("id"@));
        let name = required_text(json.field("name"@));
        let importance = match json.field("importance"@) {
            Some(level) => Importance::spec_from_json(level),
            None => None,
        };
        let description = optional_text(json.field("description"@));
        if id is Some && name is Some && importance is Some && description is Some {
            Some(
                ChannelView {
                    id: id->0,
                    name: name->0,
                    importance: importance->0,
                    description: description->0,
                },
            )
        } else {
            None
        }
    }
}

impl View for Channel {
    type V = ChannelView;

    open spec fn view(&self) -> ChannelView {
        ChannelView {
            id: self.id@,
            name: self.name@,
            importance: self.importance,
            description: text_model(self.description),
        }
    }
}

impl Channel {
    /// The wire object of the channel.
    pub fn to_json(&self) -> (json: Json)
        ensures
            json@ == self@.to_json(),
    {
        let mut members: Vec<(String, Json)> = Vec::new();
        push_member(&mut members, "id", Json::Text(self.id.clone()));
        push_member(&mut members, "name", Json::Text(self.name.clone()));
        push_member(&mut members, "importance", Json::Int(self.importance.to_level() as i64));
        push_text_member(&mut members, "description", &self.description);
        assert(member_models(members@) =~= seq![
            ("id"@, JsonModel::Text(self.id@)),
            ("name"@, JsonModel::Text(self.name@)),
            ("importance"@, JsonModel::Int(self.importance.level())),
        ] + text_member("description"@, text_model(self.description)));
        object(members)
    }

    /// The channel that a wire value holds; [`BridgeError::Decode`] where
    /// `id` or `name` is not a string, `importance` is not a level from 0 to
    /// 4, or `description` is there and is not a string.
    pub fn from_json(json: &Json) -> (decoded: Result<Channel, BridgeError>)
        ensures
            match ChannelView::from_json(json@) {
                Some(channel) => decoded matches Ok(c) && c@ == channel,
                None => decoded == Err::<Channel, BridgeError>(BridgeError::Decode),
            },
    {
        let id = match required_text_field(json, "id") {
            Ok(id) => id,
            Err(e) => {
                return Err(e);
            },
        };
        let name = match required_text_field(json, "name") {
            Ok(name) => name,
            Err(e) => {
                return Err(e);
            },
        };
        let importance = match json.get("importance") {
            Some(level) => match level.as_i64() {
                Some(level) => match Importance::from_level(level) {
                    Some(importance) => importance,
                    None => {
                        return Err(BridgeError::Decode);
                    },
                },
                None => {
                    return Err(BridgeError::Decode);
                },
            },
            None => {
                return Err(BridgeError::Decode);
            },
        };
        let description = match optional_text_field(json, "description") {
            Ok(description) => description,
            Err(e) => {
                return Err(e);
            },
        };
        Ok(Channel { id, name, importance, description })
    }
}

/// A notification that is scheduled and not delivered yet.
#[derive(Debug, Clone, PartialEq, Eq)]
pub struct PendingNotification {
    pub id: i32,
    /// When the notification is due, in milliseconds since the Unix epoch.
    pub schedule_time: i64,
    pub notification: NotificationData,
}

/// The mathematical value of a [`PendingNotification`].
pub struct PendingNotificationView {
    pub id: i32,
    pub schedule_time: i64,
    pub notification: NotificationDataView,
}

impl PendingNotificationView {
    /// The wire object of a pending notification.
    pub open spec fn to_json(self) -> JsonModel {
        JsonModel::Object(
            seq![
                ("id"@, JsonModel::Int(self.id as int)),
                ("scheduleTime"@, JsonModel::Int(self.schedule_time as int)),
                ("notification"@, self.notification.to_json()),
            ],
        )
    }

    /// The pending notification that a wire value holds.
    pub open spec fn from_json(json: JsonModel) -> Option<PendingNotificationView> {
        let id = required_int(json.field("id"@));
        let schedule_time = required_long(json.field("scheduleTime"@));
        let notification = match json.field("notification"@) {
            Some(payload) => NotificationDataView::from_json(payload),
            None => None,
        };
        if id is Some && schedule_time is Some && notification is Some {
            Some(
                PendingNotificationView {
                    id: id->0,
                    schedule_time: schedule_time->0,
                    notification: notification->0,
                },
            )
        } else {
            None
        }
    }
}

impl View for PendingNotification {
    type V = PendingNotificationView;

    open spec fn view(&self) -> PendingNotificationView {
        PendingNotificationView {
            id: self.id,
            schedule_time: self.schedule_time,
            notification: self.notification@,
        }
    }
}

impl PendingNotification {
    /// The wire object of the pending notification.
    pub fn to_json(&self) -> (json: Json)
        ensures
            json@ == self@.to_json(),
    {
        let mut members: Vec<(String, Json)> = Vec::new();
        push_member(&mut members, "id", Json::Int(self.id as i64));
        push_member(&mut members, "scheduleTime", Json::Int(self.schedule_time));
        push_member(&mut members, "notification", self.notification.to_json());
        assert(member_models(members@) =~= seq![
            ("id"@, JsonModel::Int(self.id as int)),
            ("scheduleTime"@, JsonModel::Int(self.schedule_time as int)),
            ("notification"@, self.notification@.to_json()),
        ]);
        object(members)
    }

    /// The pending notification that a wire value holds;
    /// [`BridgeError::Decode`] where `id` or `scheduleTime` is not a number
    /// of its range or `notification` is not a notification.
    pub fn from_json(json: &Json) -> (decoded: Result<PendingNotification, BridgeError>)
        ensures
            match PendingNotificationView::from_json(json@) {
                Some(pending) => decoded matches Ok(p) && p@ == pending,
                None => decoded == Err::<PendingNotification, BridgeError>(BridgeError::Decode),
            },
    {
        let id = match required_i32_field(json, "id") {
            Ok(id) => id,
            Err(e) => {
                return Err(e);
            },
        };
        let schedule_time = match required_i64_field(json, "scheduleTime") {
            Ok(schedule_time) => schedule_time,
            Err(e) => {
                return Err(e);
            },
        };
        let notification = match json.get("notification") {
            Some(payload) => match NotificationData::from_json(payload) {
                Ok(notification) => notification,
                Err(e) => {
                    return Err(e);
                },
            },
            None => {
                return Err(BridgeError::Decode);
            },
        };
        Ok(PendingNotification { id, schedule_time, notification })
    }
}

/// The decoder of one pending notification, for [`decode_list`].
pub open spec fn pending_decoder() -> spec_fn(JsonModel) -> Option<PendingNotificationView> {
    |json: JsonModel| PendingNotificationView::from_json(json)
}

/// The values of a list of pending notifications.
pub open spec fn pending_views(list: Seq<PendingNotification>) -> Seq<PendingNotificationView> {
    Seq::new(list.len(), |i: int| list[i]@)
}

/// The pending notifications that a wire array holds;
/// [`BridgeError::Decode`] where the value is not an array of them.
pub fn pending_from_json(json: &Json) -> (decoded: Result<Vec<PendingNotification>, BridgeError>)
    ensures
        match decode_list(json@, pending_decoder()) {
            Some(pending) => decoded matches Ok(list) && pending_views(list@) == pending,
            None => decoded == Err::<Vec<PendingNotification>, BridgeError>(BridgeError::Decode),
        },
{
    let items = match json.as_array() {
        Some(items) => items,
        None => {
            return Err(BridgeError::Decode);
        },
    };
    let mut list: Vec<PendingNotification> = Vec::new();
    let mut i: usize = 0;
    while i < items.len()
        invariant
            i <= items.len(),
            list.len() == i,
            json@ == JsonModel::Array(models(items@)),
            forall|k: int|
                0 <= k < i ==> PendingNotificationView::from_json(#[trigger] models(items@)[k])
                    == Some(list@[k]@),
        decreases items.len() - i,
    {
        match PendingNotification::from_json(&items[i]) {
            Ok(pending) => {
                list.push(pending);
            },
            Err(e) => {
                assert(pending_decoder()(models(items@)[i as int]) is None);
                return Err(e);
            },
        }
        i = i + 1;
    }
    proof {
        assert forall|k: int| 0 <= k < items.len() implies pending_decoder()(
            #[trigger] models(items@)[k],
        ) is Some by {
            assert(PendingNotificationView::from_json(models(items@)[k]) == Some(list@[k]@));
        }
        assert(pending_views(list@) =~= decode_each(models(items@), pending_decoder())->0);
    }
    Ok(list)
}

/// A notification that is on display.
#[derive(Debug, Clone, PartialEq, Eq)]
pub struct ActiveNotification {
    pub id: i32,
    pub notification: NotificationData,
}

/// The mathematical value of an [`ActiveNotification`].
pub struct ActiveNotificationView {
    pub id: i32,
    pub notification: NotificationDataView,
}

impl ActiveNotificationView {
    /// The wire object of an active notification.
    pub open spec fn to_json(self) -> JsonModel {
        JsonModel::Object(
            seq![
                ("id"@, JsonModel::Int(self.id as int)),
                ("notification"@, self.notification.to_json()),
            ],
        )
    }

    /// The active notification that a wire value holds.
    pub open spec fn from_json(json: JsonModel) -> Option<ActiveNotificationView> {
        let id = required_int(json.field("id"@));
        let notification = match json.field("notification"@) {
            Some(payload) => NotificationDataView::from_json(payload),
            None => None,
        };
        if id is Some && notification is Some {
            Some(ActiveNotificationView { id: id->0, notification: notification->0 })
        } else {
            None
        }
    }
}

impl View for ActiveNotification {
    type V = ActiveNotificationView;

    open spec fn view(&self) -> ActiveNotificationView {
        ActiveNotificationView { id: self.id, notification: self.notification@ }
    }
}

impl ActiveNotification {
    /// The wire object of the active notification.
    pub fn to_json(&self) -> (json: Json)
        ensures
            json@ == self@.to_json(),
    {
        let mut members: Vec<(String, Json)> = Vec::new();
        push_member(&mut members, "id", Json::Int(self.id as i64));
        push_member(&mut members, "notification", self.notification.to_json());
        assert(member_models(members@) =~= seq![
            ("id"@, JsonModel::Int(self.id as int)),
            ("notification"@, self.notification@.to_json()),
        ]);
        object(members)
    }

    /// The active notification that a wire value holds;
    /// [`BridgeError::Decode`] where `id` is not a number in the range of
    /// `i32` or `notification` is not a notification.
    pub fn from_json(json: &Json) -> (decoded: Result<ActiveNotification, BridgeError>)
        ensures
            match ActiveNotificationView::from_json(json@) {
                Some(active) => decoded matches Ok(a) && a@ == active,
                None => decoded == Err::<ActiveNotification, BridgeError>(BridgeError::Decode),
            },
    {
        let id = match required_i32_field(json, "id") {
            Ok(id) => id,
            Err(e) => {
                return Err(e);
            },
        };
        let notification = match json.get("notification") {
            Some(payload) => match NotificationData::from_json(payload) {
                Ok(notification) => notification,
                Err(e) => {
                    return Err(e);
                },
            },
            None => {
                return Err(BridgeError::Decode);
            },
        };
        Ok(ActiveNotification { id, notification })
    }
}

/// The decoder of one active notification, for [`decode_list`].
pub open spec fn active_decoder() -> spec_fn(JsonModel) -> Option<ActiveNotificationView> {
    |json: JsonModel| ActiveNotificationView::from_json(json)
}

/// The values of a list of active notifications.
pub open spec fn active_views(list: Seq<ActiveNotification>) -> Seq<ActiveNotificationView> {
    Seq::new(list.len(), |i: int| list[i]@)
}

/// The active notifications that a wire array holds;
/// [`BridgeError::Decode`] where the value is not an array of them.
pub fn active_from_json(json: &Json) -> (decoded: Result<Vec<ActiveNotification>, BridgeError>)
    ensures
        match decode_list(json@, active_decoder()) {
            Some(active) => decoded matches Ok(list) && active_views(list@) == active,
            None => decoded == Err::<Vec<ActiveNotification>, BridgeError>(BridgeError::Decode),
        },
{
    let items = match json.as_array() {
        Some(items) => items,
        None => {
            return Err(BridgeError::Decode);
        },
    };
    let mut list: Vec<ActiveNotification> = Vec::new();
    let mut i: usize = 0;
    while i < items.len()
        invariant
            i <= items.len(),
            list.len() == i,
            json@ == JsonModel::Array(models(items@)),
            forall|k: int|
                0 <= k < i ==> ActiveNotificationView::from_json(#[trigger] models(items@)[k])
                    == Some(list@[k]@),
        decreases items.len() - i,
    {
        match ActiveNotification::from_json(&items[i]) {
            Ok(active) => {
                list.push(active);
            },
            Err(e) => {
                assert(active_decoder()(models(items@)[i as int]) is None);
                return Err(e);
            },
        }
        i = i + 1;
    }
    proof {
        assert forall|k: int| 0 <= k < items.len() implies active_decoder()(
            #[trigger] models(items@)[k],
        ) is Some by {
            assert(ActiveNotificationView::from_json(models(items@)[k]) == Some(list@[k]@));
        }
        assert(active_views(list@) =~= decode_each(models(items@), active_decoder())->0);
    }
    Ok(list)
}

/// The decoder of one channel, for [`decode_list`].
pub open spec fn channel_decoder() -> spec_fn(JsonModel) -> Option<ChannelView> {
    |json: JsonModel| ChannelView::from_json(json)
}

/// The values of a list of channels.
pub open spec fn channel_views(list: Seq<Channel>) -> Seq<ChannelView> {
    Seq::new(list.len(), |i: int| list[i]@)
}

/// The channels that a wire array holds; [`BridgeError::Decode`] where the
/// value is not an array of channels.
pub fn channels_from_json(json: &Json) -> (decoded: Result<Vec<Channel>, BridgeError>)
    ensures
        match decode_list(json@, channel_decoder()) {
            Some(channels) => decoded matches Ok(list) && channel_views(list@) == channels,
            None => decoded == Err::<Vec<Channel>, BridgeError>(BridgeError::Decode),
        },
{
    let items = match json.as_array() {
        Some(items) => items,
        None => {
            return Err(BridgeError::Decode);
        },
    };
    let mut list: Vec<Channel> = Vec::new();
    let mut i: usize = 0;
    while i < items.len()
        invariant
            i <= items.len(),
            list.len() == i,
            json@ == JsonModel::Array(models(items@)),
            forall|k: int|
                0 <= k < i ==> ChannelView::from_json(#[trigger] models(items@)[k]) == Some(
                    list@[k]@,
                ),
        decreases items.len() - i,
    {
        match Channel::from_json(&items[i]) {
            Ok(channel) => {
                list.push(channel);
            },
            Err(e) => {
                assert(channel_decoder()(models(items@)[i as int]) is None);
                return Err(e);
            },
        }
        i = i + 1;
    }
    proof {
        assert forall|k: int| 0 <= k < items.len() implies channel_decoder()(
            #[trigger] models(items@)[k],
        ) is Some by {
            assert(ChannelView::from_json(models(items@)[k]) == Some(list@[k]@));
        }
        assert(channel_views(list@) =~= decode_each(models(items@), channel_decoder())->0);
    }
    Ok(list)
}

/// The values of a list of action types.
pub open spec fn action_type_views(list: Seq<ActionType>) -> Seq<ActionTypeView> {
    Seq::new(list.len(), |i: int| list[i]@)
}

/// The wire values of a list of action types.
pub open spec fn action_type_wires(list: Seq<ActionTypeView>) -> Seq<JsonModel> {
    Seq::new(list.len(), |i: int| list[i].to_json())
}

/// The wire array of a list of action types.
pub fn action_types_to_json(types: &Vec<ActionType>) -> (json: Json)
    ensures
        json@ == JsonModel::Array(action_type_wires(action_type_views(types@))),
{
    let mut items: Vec<Json> = Vec::new();
    let mut i: usize = 0;
    while i < types.len()
        invariant
            i <= types.len(),
            items.len() == i,
            forall|k: int| 0 <= k < i ==> (#[trigger] items@[k])@ == types@[k]@.to_json(),
        decreases types.len() - i,
    {
        items.push(types[i].to_json());
        i = i + 1;
    }
    proof {
        lemma_array_view(items);
        assert(models(items@) =~= action_type_wires(action_type_views(types@)));
    }
    Json::Array(items)
}

/// Reading back the wire object of an action gives the action.
pub proof fn lemma_action_round_trip(action: ActionView)
    ensures
        ActionView::from_json(action.to_json()) == Some(action),
{
    reveal_strlit("id");
    reveal_strlit("title");
    let members = seq![
        ("id"@, JsonModel::Text(action.id)),
        ("title"@, JsonModel::Text(action.title)),
    ];
    assert("id"@.len() != "title"@.len());
    lemma_lookup_distinct(members, 0);
    lemma_lookup_distinct(members, 1);
}

/// Reading back the wire array of a list of actions gives the list.
pub proof fn lemma_actions_round_trip(actions: Seq<ActionView>)
    ensures
        decode_list(JsonModel::Array(action_wires(actions)), action_decoder()) == Some(actions),
{
    let wires = action_wires(actions);
    assert forall|i: int| 0 <= i < wires.len() implies action_decoder()(#[trigger] wires[i])
        == Some(actions[i]) by {
        lemma_action_round_trip(actions[i]);
    }
    assert(decode_each(wires, action_decoder())->0 =~= actions);
}

/// Reading back the wire object of an action type gives the action type.
pub proof fn lemma_action_type_round_trip(action_type: ActionTypeView)
    ensures
        ActionTypeView::from_json(action_type.to_json()) == Some(action_type),
{
    reveal_strlit("id");
    reveal_strlit("actions");
    let members = seq![
        ("id"@, JsonModel::Text(action_type.id)),
        ("actions"@, JsonModel::Array(action_wires(action_type.actions))),
    ];
    assert("id"@.len() != "actions"@.len());
    lemma_lookup_distinct(members, 0);
    lemma_lookup_distinct(members, 1);
    lemma_actions_round_trip(action_type.actions);
}

/// Reading back the wire object of a channel gives the channel.
pub proof fn lemma_channel_round_trip(channel: ChannelView)
    ensures
        ChannelView::from_json(channel.to_json()) == Some(channel),
{
    reveal_strlit("id");
    reveal_strlit("name");
    reveal_strlit("importance");
    reveal_strlit("description");
    assert("id"@.len() == 2);
    assert("name"@.len() == 4);
    assert("importance"@.len() == 10);
    assert("description"@.len() == 11);
    let fixed = seq![
        ("id"@, JsonModel::Text(channel.id)),
        ("name"@, JsonModel::Text(channel.name)),
        ("importance"@, JsonModel::Int(channel.importance.level())),
    ];
    let members = fixed + text_member("description"@, channel.description);
    lemma_lookup_distinct(members, 0);
    lemma_lookup_distinct(members, 1);
    lemma_lookup_distinct(members, 2);
    match channel.description {
        Some(_) => {
            lemma_lookup_distinct(members, 3);
        },
        None => {
            lemma_lookup_absent(members, "description"@);
        },
    }
    lemma_importance_round_trip(channel.importance);
}

/// Reading back the wire object of a pending notification gives it back,
/// where its notification is valid.
pub proof fn lemma_pending_round_trip(pending: PendingNotificationView)
    requires
        pending.notification.wf(),
    ensures
        PendingNotificationView::from_json(pending.to_json()) == Some(pending),
{
    reveal_strlit("id");
    reveal_strlit("scheduleTime");
    reveal_strlit("notification");
    assert("id"@.len() == 2);
    assert("scheduleTime"@[0] == 's');
    assert("notification"@[0] == 'n');
    let members = seq![
        ("id"@, JsonModel::Int(pending.id as int)),
        ("scheduleTime"@, JsonModel::Int(pending.schedule_time as int)),
        ("notification"@, pending.notification.to_json()),
    ];
    lemma_lookup_distinct(members, 0);
    lemma_lookup_distinct(members, 1);
    lemma_lookup_distinct(members, 2);
    lemma_notification_round_trip(pending.notification);
}

/// Reading back the wire object of an active notification gives it back,
/// where its notification is valid.
pub proof fn lemma_active_round_trip(active: ActiveNotificationView)
    requires
        active.notification.wf(),
    ensures
        ActiveNotificationView::from_json(active.to_json()) == Some(active),
{
    reveal_strlit("id");
    reveal_strlit("notification");
    assert("id"@.len() != "notification"@.len());
    let members = seq![
        ("id"@, JsonModel::Int(active.id as int)),
        ("notification"@, active.notification.to_json()),
    ];
    lemma_lookup_distinct(members, 0);
    lemma_lookup_distinct(members, 1);
    lemma_notification_round_trip(active.notification);
}

} // verus!
