//! A typed bridge between a host application and the native notification
//! plugins of Android and iOS.
//!
//! The host says what it wants as a [`protocol::PluginCall`] and reads the
//! answer from a [`protocol::NativeReply`]; events that the native side
//! pushes are read in [`events`]; the entry points by which the native side
//! calls back into the host are laid out in [`android`], [`ffi`] and
//! [`generator`]. Everything that crosses the boundary is JSON with the wire
//! shapes of [`notification`] and [`models`].

pub mod android;
pub mod codec;
pub mod error;
pub mod events;
pub mod ffi;
pub mod fields;
pub mod generator;
pub mod json;
pub mod members;
pub mod mobile;
pub mod models;
pub mod notification;
pub mod protocol;

pub use error::BridgeError;
pub use generator::{fetch_pending_notifications, modify_push_notification};
pub use json::Json;
pub use mobile::{
    init, Notification, NotificationActionPerformedPayload, NotificationBuilder, Platform,
    RegisterListenerArgs,
};
pub use notification::NotificationData;
