//! What the Android entry points do between the Java strings that come in
//! and the Java strings that go out.
//!
//! The native service calls two methods of the host, `fetchpendingnotifications`
//! and `modifypushnotification`. Each hands a hook of the application its
//! input and marshals what the hook returns. The JNI calls themselves are
//! made by the adapter; the values that it passes to them are decided here.

use crate::codec::{decode, written};
use crate::error::BridgeError;
use crate::notification::{transform, transformed, NotificationData, NotificationDataView};
use vstd::prelude::*;

verus! {

/// The JSON text of each record of a list, in order.
pub open spec fn record_texts(records: Seq<NotificationData>) -> Seq<Seq<char>> {
    Seq::new(records.len(), |i: int| written(records[i]@.to_json()))
}

/// The elements of a Java `String[]` that is yet to be built, with the
/// length to allocate it with.
///
/// JNI counts the elements of an array in an `i32`. The length held here is
/// the number of elements held, so an array allocated with
/// [`length`](Self::length) and filled at every index from
/// [`element`](Self::element) has no slot left over and none missing.
pub struct JavaStringArray {
    length: i32,
    elements: Vec<String>,
}

impl JavaStringArray {
    #[verifier::type_invariant]
    spec fn well_formed(self) -> bool {
        self.length as int == self.elements@.len()
    }

    /// The texts of the elements, in order.
    pub closed spec fn texts(self) -> Seq<Seq<char>> {
        Seq::new(self.elements@.len(), |i: int| self.elements@[i]@)
    }

    /// The length to allocate the array with: the number of elements.
    pub fn length(&self) -> (length: i32)
        ensures
            length as int == self.texts().len(),
    {
        proof {
            use_type_invariant(self);
        }
        self.length
    }

    /// The element to store at an index; none for an index that the array
    /// does not have.
    pub fn element(&self, index: i32) -> (element: Option<&str>)
        ensures
            match element {
                Some(text) => 0 <= index < self.texts().len() && text@ == self.texts()[index as
                    int],
                None => !(0 <= index < self.texts().len()),
            },
    {
        proof {
            use_type_invariant(self);
        }
        if 0 <= index && index < self.length {
            Some(self.elements[index as usize].as_str())
        } else {
            None
        }
    }

    /// The elements as a list.
    pub fn into_elements(self) -> (elements: Vec<String>)
        ensures
            elements@.len() == self.texts().len(),
            forall|i: int|
                0 <= i < elements@.len() ==> (#[trigger] elements@[i])@ == self.texts()[i],
    {
        self.elements
    }
}

/// The array of JSON texts to return for a list of pending notifications:
/// one element for each record, in order. There is none where the list is
/// longer than a Java array can be.
pub fn pending_array(records: &Vec<NotificationData>) -> (array: Option<JavaStringArray>)
    ensures
        array is Some <==> records@.len() <= i32::MAX,
        array matches Some(a) ==> a.texts() == record_texts(records@),
{
    if records.len() > 2147483647 {
        return None;
    }
    let mut elements: Vec<String> = Vec::new();
    let mut i: usize = 0;
    while i < records.len()
        invariant
            i <= records.len(),
            elements.len() == i,
            forall|k: int|
                0 <= k < i ==> (#[trigger] elements@[k])@ == written(records@[k]@.to_json()),
        decreases records.len() - i,
    {
        elements.push(records[i].to_text());
        i = i + 1;
    }
    let array = JavaStringArray { length: records.len() as i32, elements };
    assert(array.texts() =~= record_texts(records@));
    Some(array)
}

/// What `fetchpendingnotifications` returns: the hook's records as an array
/// of JSON texts, as [`pending_array`] lays it out.
pub fn fetch_pending<F: Fn() -> Vec<NotificationData>>(hook: F) -> (array: Option<JavaStringArray>)
    requires
        call_requires(hook, ()),
    ensures
        exists|records: Vec<NotificationData>|
            call_ensures(hook, (), records) && (array is Some <==> records@.len() <= i32::MAX) && (
            array matches Some(a) ==> a.texts() == record_texts(records@)),
{
    let records = hook();
    pending_array(&records)
}

/// What `modifypushnotification` returns for its argument: the argument is
/// read as a notification, the hook is applied, and the result is written as
/// JSON text. [`BridgeError::Decode`] where the argument is not a
/// notification; the hook is not called then.
pub fn modify_push<F: Fn(NotificationData) -> NotificationData>(text: &str, hook: F) -> (modified:
    Result<String, BridgeError>)
    requires
        forall|record: NotificationData| record@.wf() ==> call_requires(hook, (record,)),
    ensures
        match NotificationDataView::from_text(text@) {
            Some(received) => modified is Ok && exists|changed: NotificationDataView|
                transformed(hook, received, changed) && modified->Ok_0@ == written(
                    changed.to_json(),
                ),
            None => modified == Err::<String, BridgeError>(BridgeError::Decode),
        },
{
    let value = match decode(text) {
        Ok(value) => value,
        Err(e) => {
            return Err(e);
        },
    };
    match transform(&value, hook) {
        Ok(changed) => Ok(changed.to_text()),
        Err(e) => Err(e),
    }
}

} // verus!
