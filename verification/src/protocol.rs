//! The invoke protocol: what is said to the native plugin, and what is made of
//! its answer.
//!
//! A call is a command of the fixed table with its wire arguments. Whoever
//! holds the plugin handle sends the call and brings back a [`NativeReply`];
//! the typed result is then read from the reply. A reply that the native side
//! rejected becomes [`BridgeError::Invoke`] with its message, one whose value
//! does not have the shape that the command answers with becomes
//! [`BridgeError::Decode`].

use crate::error::BridgeError;
use crate::json::{Json, JsonModel};
use crate::models::{
    active_decoder, active_from_json, active_views, channel_decoder, channel_views,
    channels_from_json, decode_list, pending_decoder, pending_from_json, pending_views,
    ActiveNotification, ActiveNotificationView, Channel, ChannelView, PendingNotification,
    PendingNotificationView, PermissionState,
};
use vstd::prelude::*;

verus! {

/// The commands that the native plugin answers.
#[derive(Debug, Clone, Copy, PartialEq, Eq, Structural)]
pub enum Command {
    Show,
    GetLaunchingNotification,
    RegisterForPushNotifications,
    GetFcmToken,
    RequestPermissions,
    CheckPermissions,
    RegisterActionTypes,
    RemoveActive,
    GetActive,
    GetPending,
    Cancel,
    CreateChannel,
    DeleteChannel,
    ListChannels,
    RegisterListener,
}

impl Command {
    /// The name by which the native side knows the command.
    pub open spec fn wire_name(self) -> Seq<char> {
        match self {
            Command::Show => "show"@,
            Command::GetLaunchingNotification => "getLaunchingNotification"@,
            Command::RegisterForPushNotifications => "registerForPushNotifications"@,
            Command::GetFcmToken => "getFCMToken"@,
            Command::RequestPermissions => "requestPermissions"@,
            Command::CheckPermissions => "checkPermissions"@,
            Command::RegisterActionTypes => "registerActionTypes"@,
            Command::RemoveActive => "removeActive"@,
            Command::GetActive => "getActive"@,
            Command::GetPending => "getPending"@,
            Command::Cancel => "cancel"@,
            Command::CreateChannel => "createChannel"@,
            Command::DeleteChannel => "deleteChannel"@,
            Command::ListChannels => "listChannels"@,
            Command::RegisterListener => "registerListener"@,
        }
    }

    /// Whether only Android's plugin answers the command.
    pub open spec fn android_only(self) -> bool {
        self == Command::CreateChannel || self == Command::DeleteChannel || self
            == Command::ListChannels
    }

    /// The name by which the native side knows the command.
    pub fn name(&self) -> (name: &'static str)
        ensures
            name@ == self.wire_name(),
    {
        match self {
            Command::Show => "show",
            Command::GetLaunchingNotification => "getLaunchingNotification",
            Command::RegisterForPushNotifications => "registerForPushNotifications",
            Command::GetFcmToken => "getFCMToken",
            Command::RequestPermissions => "requestPermissions",
            Command::CheckPermissions => "checkPermissions",
            Command::RegisterActionTypes => "registerActionTypes",
            Command::RemoveActive => "removeActive",
            Command::GetActive => "getActive",
            Command::GetPending => "getPending",
            Command::Cancel => "cancel",
            Command::CreateChannel => "createChannel",
            Command::DeleteChannel => "deleteChannel",
            Command::ListChannels => "listChannels",
            Command::RegisterListener => "registerListener",
        }
    }

    /// Whether only Android's plugin answers the command.
    pub fn is_android_only(&self) -> (only: bool)
        ensures
            only == self.android_only(),
    {
        match self {
            Command::CreateChannel => true,
            Command::DeleteChannel => true,
            Command::ListChannels => true,
            _ => false,
        }
    }
}

/// One call into the native plugin.
#[derive(Debug, Clone, PartialEq, Eq)]
pub struct PluginCall {
    pub command: Command,
    /// The wire arguments; `null` for a command that takes none.
    pub args: Json,
}

/// The mathematical value of a [`PluginCall`].
pub struct PluginCallView {
    pub command: Command,
    pub args: JsonModel,
}

impl View for PluginCall {
    type V = PluginCallView;

    open spec fn view(&self) -> PluginCallView {
        PluginCallView { command: self.command, args: self.args@ }
    }
}

impl PluginCall {
    /// A call of a command that takes no arguments.
    pub fn bare(command: Command) -> (call: PluginCall)
        ensures
            call@ == (PluginCallView { command, args: JsonModel::Null }),
    {
        PluginCall { command, args: Json::Null }
    }

    /// A call of a command with its wire arguments.
    pub fn with_args(command: Command, args: Json) -> (call: PluginCall)
        ensures
            call@ == (PluginCallView { command, args: args@ }),
    {
        PluginCall { command, args }
    }
}

/// What the native side answered to a call.
#[derive(Debug, Clone, PartialEq, Eq)]
pub enum NativeReply {
    /// The call went through; the value is its wire result, `null` where the
    /// command has none.
    Resolved(Json),
    /// The native side reported a failure, with this message.
    Rejected(String),
}

/// The mathematical value of a [`NativeReply`].
pub enum NativeReplyView {
    Resolved(JsonModel),
    Rejected(Seq<char>),
}

impl View for NativeReply {
    type V = NativeReplyView;

    open spec fn view(&self) -> NativeReplyView {
        match self {
            NativeReply::Resolved(value) => NativeReplyView::Resolved(value@),
            NativeReply::Rejected(message) => NativeReplyView::Rejected(message@),
        }
    }
}

/// The value that stands for "no result".
pub open spec fn unit_of(value: JsonModel) -> Option<()> {
    match value {
        JsonModel::Null => Some(()),
        _ => None,
    }
}

/// The result of `show`: the identifier that the platform gave, which is
/// read and dropped.
pub open spec fn shown_of(value: JsonModel) -> Option<()> {
    match value.int32() {
        Some(_) => Some(()),
        None => None,
    }
}

/// The permission state that a permission answer holds: the member
/// `permissionState` of an object.
pub open spec fn permission_of(value: JsonModel) -> Option<PermissionState> {
    match value.field("permissionState"@) {
        Some(state) => PermissionState::spec_from_json(state),
        None => None,
    }
}

impl NativeReply {
    /// The message of a rejected call, as the error that the caller gets.
    fn rejected(message: String) -> (error: BridgeError)
        ensures
            error matches BridgeError::Invoke(m) && m@ == message@,
    {
        BridgeError::Invoke(message)
    }

    /// The result of a command that answers with nothing: the reply's value
    /// has to be `null`.
    pub fn into_unit(self) -> (result: Result<(), BridgeError>)
        ensures
            match self@ {
                NativeReplyView::Rejected(message) => result matches Err(BridgeError::Invoke(m))
                    && m@ == message,
                NativeReplyView::Resolved(value) => match unit_of(value) {
                    Some(_) => result is Ok,
                    None => result == Err::<(), BridgeError>(BridgeError::Decode),
                },
            },
    {
        match self {
            NativeReply::Rejected(message) => Err(NativeReply::rejected(message)),
            NativeReply::Resolved(value) => {
                if value.is_null() {
                    Ok(())
                } else {
                    Err(BridgeError::Decode)
                }
            },
        }
    }

    /// The result of `show`: the reply's value has to be the identifier of
    /// the notification, a number in the range of `i32`, and is dropped.
    pub fn into_shown(self) -> (result: Result<(), BridgeError>)
        ensures
            match self@ {
                NativeReplyView::Rejected(message) => result matches Err(BridgeError::Invoke(m))
                    && m@ == message,
                NativeReplyView::Resolved(value) => match shown_of(value) {
                    Some(_) => result is Ok,
                    None => result == Err::<(), BridgeError>(BridgeError::Decode),
                },
            },
    {
        match self {
            NativeReply::Rejected(message) => Err(NativeReply::rejected(message)),
            NativeReply::Resolved(value) => match value.as_i32() {
                Some(_) => Ok(()),
                None => Err(BridgeError::Decode),
            },
        }
    }

    /// The result of a command that answers with a token: the reply's value
    /// has to be a string.
    pub fn into_token(self) -> (result: Result<String, BridgeError>)
        ensures
            match self@ {
                NativeReplyView::Rejected(message) => result matches Err(BridgeError::Invoke(m))
                    && m@ == message,
                NativeReplyView::Resolved(value) => match value.text() {
                    Some(token) => result matches Ok(t) && t@ == token,
                    None => result == Err::<String, BridgeError>(BridgeError::Decode),
                },
            },
    {
        match self {
            NativeReply::Rejected(message) => Err(NativeReply::rejected(message)),
            NativeReply::Resolved(value) => match value {
                Json::Text(token) => Ok(token),
                _ => Err(BridgeError::Decode),
            },
        }
    }

    /// The result of a permission command: the reply's value has to be an
    /// object whose member `permissionState` names a state.
    pub fn into_permission(self) -> (result: Result<PermissionState, BridgeError>)
        ensures
            match self@ {
                NativeReplyView::Rejected(message) => result matches Err(BridgeError::Invoke(m))
                    && m@ == message,
                NativeReplyView::Resolved(value) => match permission_of(value) {
                    Some(state) => result == Ok::<PermissionState, BridgeError>(state),
                    None => result == Err::<PermissionState, BridgeError>(BridgeError::Decode),
                },
            },
    {
        match self {
            NativeReply::Rejected(message) => Err(NativeReply::rejected(message)),
            NativeReply::Resolved(value) => match value.get("permissionState") {
                Some(state) => PermissionState::from_json(state),
                None => Err(BridgeError::Decode),
            },
        }
    }

    /// The result of `getActive`: the reply's value has to be an array of
    /// active notifications.
    pub fn into_active(self) -> (result: Result<Vec<ActiveNotification>, BridgeError>)
        ensures
            match self@ {
                NativeReplyView::Rejected(message) => result matches Err(BridgeError::Invoke(m))
                    && m@ == message,
                NativeReplyView::Resolved(value) => match decode_list(value, active_decoder()) {
                    Some(active) => result matches Ok(list) && active_views(list@) == active,
                    None => result == Err::<Vec<ActiveNotification>, BridgeError>(
                        BridgeError::Decode,
                    ),
                },
            },
    {
        match self {
            NativeReply::Rejected(message) => Err(NativeReply::rejected(message)),
            NativeReply::Resolved(value) => active_from_json(&value),
        }
    }

    /// The result of `getPending`: the reply's value has to be an array of
    /// pending notifications.
    pub fn into_pending(self) -> (result: Result<Vec<PendingNotification>, BridgeError>)
        ensures
            match self@ {
                NativeReplyView::Rejected(message) => result matches Err(BridgeError::Invoke(m))
                    && m@ == message,
                NativeReplyView::Resolved(value) => match decode_list(value, pending_decoder()) {
                    Some(pending) => result matches Ok(list) && pending_views(list@) == pending,
                    None => result == Err::<Vec<PendingNotification>, BridgeError>(
                        BridgeError::Decode,
                    ),
                },
            },
    {
        match self {
            NativeReply::Rejected(message) => Err(NativeReply::rejected(message)),
            NativeReply::Resolved(value) => pending_from_json(&value),
        }
    }

    /// The result of `listChannels`: the reply's value has to be an array of
    /// channels.
    pub fn into_channels(self) -> (result: Result<Vec<Channel>, BridgeError>)
        ensures
            match self@ {
                NativeReplyView::Rejected(message) => result matches Err(BridgeError::Invoke(m))
                    && m@ == message,
                NativeReplyView::Resolved(value) => match decode_list(value, channel_decoder()) {
                    Some(channels) => result matches Ok(list) && channel_views(list@) == channels,
                    None => result == Err::<Vec<Channel>, BridgeError>(BridgeError::Decode),
                },
            },
    {
        match self {
            NativeReply::Rejected(message) => Err(NativeReply::rejected(message)),
            NativeReply::Resolved(value) => channels_from_json(&value),
        }
    }
}

} // verus!
