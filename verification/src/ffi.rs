//! What crosses the C boundary on iOS, in safe terms.
//!
//! Text crosses as a byte span: a borrowed run of UTF-8 bytes that is not
//! copied. A modified notification crosses as a boxed record with a single
//! owner. The four operations of the boundary are given here on these types;
//! the adapter that is linked into the native layer turns spans and boxes
//! into raw pointers and back, and does nothing else.

use crate::error::BridgeError;
use crate::codec::decode;
use crate::notification::{transform, transformed, NotificationData, NotificationDataView};
use vstd::prelude::*;
use vstd::string::StringSliceAdditionalSpecFns;
use vstd::utf8::{
    decode_utf8, encode_utf8, encode_utf8_decode_utf8, encode_utf8_valid_utf8, valid_utf8,
};

verus! {

/// A borrowed run of bytes that is meant to hold UTF-8 text.
///
/// A span made from a string borrows the string's buffer: it lives no longer
/// than the string and the string cannot change while the span is in use.
#[derive(Debug, Clone, Copy, PartialEq, Eq)]
pub struct ByteSpan<'a> {
    bytes: &'a [u8],
}

impl<'a> View for ByteSpan<'a> {
    type V = Seq<u8>;

    closed spec fn view(&self) -> Seq<u8> {
        self.bytes@
    }
}

/// Reads bytes as text with `core::str::from_utf8`.
///
/// Trusted: std accepts the bytes exactly when they are valid UTF-8, and the
/// text that it returns is made of the same bytes.
#[verifier::external_body]
fn checked_text<'a>(bytes: &'a [u8]) -> (text: Option<&'a str>)
    ensures
        text is Some <==> valid_utf8(bytes@),
        text matches Some(t) ==> t.spec_bytes() == bytes@,
{
    core::str::from_utf8(bytes).ok()
}

impl<'a> ByteSpan<'a> {
    /// The span of a text: its UTF-8 bytes, borrowed.
    pub fn from_str(text: &'a str) -> (span: ByteSpan<'a>)
        ensures
            span@ == encode_utf8(text@),
            valid_utf8(span@),
            decode_utf8(span@) == text@,
    {
        proof {
            encode_utf8_valid_utf8(text@);
            encode_utf8_decode_utf8(text@);
        }
        ByteSpan { bytes: text.as_bytes() }
    }

    /// The span of some bytes, which need not be text.
    pub fn from_bytes(bytes: &'a [u8]) -> (span: ByteSpan<'a>)
        ensures
            span@ == bytes@,
    {
        ByteSpan { bytes }
    }

    /// The number of bytes.
    pub fn len(&self) -> (len: usize)
        ensures
            len == self@.len(),
    {
        self.bytes.len()
    }

    /// The bytes.
    pub fn as_bytes(&self) -> (bytes: &'a [u8])
        ensures
            bytes@ == self@,
    {
        self.bytes
    }

    /// The text that the span holds. The bytes are checked here, at the
    /// boundary: [`BridgeError::Decode`] where they are not valid UTF-8.
    pub fn as_str(&self) -> (text: Result<&'a str, BridgeError>)
        ensures
            if valid_utf8(self@) {
                text matches Ok(t) && t@ == decode_utf8(self@)
            } else {
                text == Err::<&str, BridgeError>(BridgeError::Decode)
            },
    {
        match checked_text(self.bytes) {
            Some(text) => {
                proof {
                    encode_utf8_decode_utf8(text@);
                }
                Ok(text)
            },
            None => Err(BridgeError::Decode),
        }
    }
}

/// The text shown for an optional text: nothing where there is none.
pub open spec fn shown_text(text: Option<Seq<char>>) -> Seq<char> {
    match text {
        Some(t) => t,
        None => Seq::empty(),
    }
}

/// A notification as the native layer holds it after a transform: it can
/// read the title and the body, and has to give the record back to be
/// released.
///
/// A value is made by [`modify_notification`] alone.
#[derive(Debug, Clone, PartialEq, Eq)]
pub struct PushNotification {
    record: NotificationData,
}

impl View for PushNotification {
    type V = NotificationDataView;

    closed spec fn view(&self) -> NotificationDataView {
        self.record@
    }
}

impl PushNotification {
    /// The whole record.
    pub fn record(&self) -> (record: &NotificationData)
        ensures
            record@ == self@,
    {
        &self.record
    }

    /// The record, taken out of its box.
    pub fn into_record(self) -> (record: NotificationData)
        ensures
            record@ == self@,
    {
        self.record
    }
}

/// The span of an optional text: that of the text, which is borrowed, or the
/// empty span.
fn text_span<'a>(text: &'a Option<String>) -> (span: ByteSpan<'a>)
    ensures
        span@ == encode_utf8(
            shown_text(
                match *text {
                    Some(t) => Some(t@),
                    None => None,
                },
            ),
        ),
{
    match text {
        Some(t) => ByteSpan::from_str(t.as_str()),
        None => {
            let span = ByteSpan::from_str("");
            proof {
                reveal_strlit("");
                assert(""@ =~= Seq::<char>::empty());
            }
            span
        },
    }
}

/// Reads a notification from the span, applies the hook to it, and boxes the
/// result, which the caller then owns. [`BridgeError::Decode`] where the
/// span is not the JSON text of a notification; the hook is not called then.
pub fn modify_notification<F: Fn(NotificationData) -> NotificationData>(
    notification: ByteSpan<'_>,
    hook: F,
) -> (modified: Result<Box<PushNotification>, BridgeError>)
    requires
        forall|record: NotificationData| record@.wf() ==> call_requires(hook, (record,)),
    ensures
        match received_record(notification@) {
            Some(received) => modified is Ok && transformed(hook, received, modified->Ok_0@),
            None => modified == Err::<Box<PushNotification>, BridgeError>(BridgeError::Decode),
        },
{
    let text = match notification.as_str() {
        Ok(text) => text,
        Err(e) => {
            return Err(e);
        },
    };
    let value = match decode(text) {
        Ok(value) => value,
        Err(e) => {
            return Err(e);
        },
    };
    match transform(&value, hook) {
        Ok(changed) => Ok(Box::new(PushNotification { record: changed })),
        Err(e) => Err(e),
    }
}

/// The notification that a span holds: its bytes have to be UTF-8, and the
/// text the JSON of a notification.
pub open spec fn received_record(bytes: Seq<u8>) -> Option<NotificationDataView> {
    if valid_utf8(bytes) {
        NotificationDataView::from_text(decode_utf8(bytes))
    } else {
        None
    }
}

/// The title of a boxed notification as a span that borrows from the
/// record; the empty span where there is no title.
pub fn notification_title<'a>(data: &'a PushNotification) -> (title: ByteSpan<'a>)
    ensures
        title@ == encode_utf8(shown_text(data@.title)),
{
    text_span(&data.record.title)
}

/// The body of a boxed notification as a span that borrows from the record;
/// the empty span where there is no body.
pub fn notification_body<'a>(data: &'a PushNotification) -> (body: ByteSpan<'a>)
    ensures
        body@ == encode_utf8(shown_text(data@.body)),
{
    text_span(&data.record.body)
}

/// Takes a boxed notification back and releases it. The box is moved in, so
/// a record is released once and no span that borrows from it is left.
pub fn notification_destroy(data: Box<PushNotification>) {
    let _ = data;
}

} // verus!
