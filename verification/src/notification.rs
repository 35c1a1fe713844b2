//! The notification record and its wire shape.
//!
//! On the wire a notification is a JSON object. The members `id`, `title`,
//! `body` and `channelId` are the record's own; every other member is kept
//! as an extra, so that what the platform adds to a notification comes back
//! when the record is written again.
//!
//! The extras are a map from keys to documents. They are held as a list with
//! one member for each key; the order of the list is kept on the wire and is
//! no part of what the record holds: two records are equal when their own
//! fields are the same and their extras are the same map.

use crate::codec::{decode, encode, json_parsed, written};
use crate::error::BridgeError;
use crate::fields::{
    int_member, object, optional_i32_field, optional_int, optional_text, optional_text_field,
    push_int_member, push_members, push_text_member, text_member, text_model,
};
use crate::json::{
    lemma_lookup_absent, lemma_lookup_add, lookup, member_models, same_text, Json, JsonModel,
};
use crate::members::{
    alike, distinct_keys, has_distinct_keys, last_index_of, lemma_lookup_present,
    lemma_one_per_key_distinct, lemma_one_per_key_lookup, lemma_one_per_key_same,
    lemma_same_document_chained, lemma_same_document_itself, lemma_same_document_turned,
    one_per_key, same_at, settle,
};
use vstd::prelude::*;
use vstd::std_specs::cmp::PartialEqSpecImpl;

verus! {

/// A notification to show, or one that was received.
///
/// Two records are equal when they hold the same: `==` is
/// [`same_record`](NotificationData::same_record), which reads the extras as
/// a map and does not look at their order.
#[derive(Debug, Eq)]
pub struct NotificationData {
    /// The identifier; the platform assigns one where there is none.
    pub id: Option<i32>,
    pub title: Option<String>,
    pub body: Option<String>,
    /// The Android channel that the notification is posted under.
    pub channel_id: Option<String>,
    /// The members of the wire object that are not the record's own.
    pub extra: Vec<(String, Json)>,
}

/// The mathematical value of a [`NotificationData`].
pub struct NotificationDataView {
    pub id: Option<i32>,
    pub title: Option<Seq<char>>,
    pub body: Option<Seq<char>>,
    pub channel_id: Option<Seq<char>>,
    pub extra: Seq<(Seq<char>, JsonModel)>,
}

/// Whether a key names one of the record's own members.
pub open spec fn is_reserved(key: Seq<char>) -> bool {
    key == "id"@ || key == "title"@ || key == "body"@ || key == "channelId"@
}

/// The test that picks the extras among the members of a wire object.
pub open spec fn is_extra() -> spec_fn((Seq<char>, JsonModel)) -> bool {
    |member: (Seq<char>, JsonModel)| !is_reserved(member.0)
}

impl NotificationDataView {
    /// The record that holds nothing.
    pub open spec fn empty() -> NotificationDataView {
        NotificationDataView {
            id: None,
            title: None,
            body: None,
            channel_id: None,
            extra: Seq::empty(),
        }
    }

    /// A record is valid when its extras are a map beside the record's own
    /// members: no extra goes by the name of one of those, and no two extras
    /// have the same key.
    pub open spec fn wf(self) -> bool {
        &&& self.extras_apart()
        &&& distinct_keys(self.extra)
    }

    /// Whether no extra goes by the name of one of the record's own
    /// members.
    pub open spec fn extras_apart(self) -> bool {
        forall|i: int| 0 <= i < self.extra.len() ==> !is_reserved((#[trigger] self.extra[i]).0)
    }

    /// Whether two records hold the same: the same own fields, and extras
    /// that are the same map, in whatever order the extras, and the members
    /// of objects within them, stand.
    pub open spec fn same_fields(self, other: NotificationDataView) -> bool {
        &&& self.id == other.id
        &&& self.title == other.title
        &&& self.body == other.body
        &&& self.channel_id == other.channel_id
        &&& forall|key: Seq<char>| same_at(self.extra, other.extra, key)
    }

    /// The record's own members: those of `id`, `title`, `body` and
    /// `channelId` that hold a value, in that order.
    pub open spec fn own_members(self) -> Seq<(Seq<char>, JsonModel)> {
        int_member("id"@, self.id) + text_member("title"@, self.title) + text_member(
            "body"@,
            self.body,
        ) + text_member("channelId"@, self.channel_id)
    }

    /// The members of the wire object: the record's own members, then the
    /// extras.
    pub open spec fn members(self) -> Seq<(Seq<char>, JsonModel)> {
        self.own_members() + self.extra
    }

    /// The wire object of a record.
    pub open spec fn to_json(self) -> JsonModel {
        JsonModel::Object(self.members())
    }

    /// The record that a wire value decodes to; `None` where it is not an
    /// object or one of the record's own members has the wrong type. The
    /// extras are the other members, one for each key.
    pub open spec fn from_json(json: JsonModel) -> Option<NotificationDataView> {
        match json {
            JsonModel::Object(members) => {
                let id = optional_int(lookup(members, "id"@));
                let title = optional_text(lookup(members, "title"@));
                let body = optional_text(lookup(members, "body"@));
                let channel_id = optional_text(lookup(members, "channelId"@));
                if id is Some && title is Some && body is Some && channel_id is Some {
                    Some(
                        NotificationDataView {
                            id: id->0,
                            title: title->0,
                            body: body->0,
                            channel_id: channel_id->0,
                            extra: one_per_key(members.filter(is_extra())),
                        },
                    )
                } else {
                    None
                }
            },
            _ => None,
        }
    }

    /// The record that a JSON text decodes to.
    pub open spec fn from_text(text: Seq<char>) -> Option<NotificationDataView> {
        match json_parsed(text) {
            Some(json) => Self::from_json(json),
            None => None,
        }
    }
}

impl View for NotificationData {
    type V = NotificationDataView;

    open spec fn view(&self) -> NotificationDataView {
        NotificationDataView {
            id: self.id,
            title: text_model(self.title),
            body: text_model(self.body),
            channel_id: text_model(self.channel_id),
            extra: member_models(self.extra@),
        }
    }
}

/// The four reserved keys are four different texts.
pub proof fn lemma_reserved_keys()
    ensures
        "id"@ != "title"@,
        "id"@ != "body"@,
        "id"@ != "channelId"@,
        "title"@ != "body"@,
        "title"@ != "channelId"@,
        "body"@ != "channelId"@,
        is_reserved("id"@),
        is_reserved("title"@),
        is_reserved("body"@),
        is_reserved("channelId"@),
{
    reveal_strlit("id");
    reveal_strlit("title");
    reveal_strlit("body");
    reveal_strlit("channelId");
    assert("id"@.len() == 2);
    assert("title"@.len() == 5);
    assert("body"@.len() == 4);
    assert("channelId"@.len() == 9);
}

/// A list in which every member passes a test is its own filter.
pub proof fn lemma_filter_all<A>(items: Seq<A>, test: spec_fn(A) -> bool)
    requires
        forall|i: int| 0 <= i < items.len() ==> test(#[trigger] items[i]),
    ensures
        items.filter(test) == items,
    decreases items.len(),
{
    reveal(Seq::filter);
    if items.len() > 0 {
        lemma_filter_all(items.drop_last(), test);
        assert(items.drop_last().push(items.last()) =~= items);
    }
}

/// A list in which no member passes a test has an empty filter.
pub proof fn lemma_filter_none<A>(items: Seq<A>, test: spec_fn(A) -> bool)
    requires
        forall|i: int| 0 <= i < items.len() ==> !test(#[trigger] items[i]),
    ensures
        items.filter(test) == Seq::<A>::empty(),
    decreases items.len(),
{
    reveal(Seq::filter);
    if items.len() > 0 {
        lemma_filter_none(items.drop_last(), test);
    }
}

/// A lookup in a list of at most one member.
proof fn lemma_lookup_single(members: Seq<(Seq<char>, JsonModel)>, key: Seq<char>)
    requires
        members.len() <= 1,
    ensures
        lookup(members, key) == if members.len() == 1 && members[0].0 == key {
            Some(members[0].1)
        } else {
            None
        },
{
    reveal_with_fuel(lookup, 2);
    if members.len() == 1 {
        assert(members.drop_last().len() == 0);
        assert(members.last() == members[0]);
    }
}

/// What a lookup finds for a number's key.
pub open spec fn found_int(value: Option<i32>) -> Option<JsonModel> {
    match value {
        Some(i) => Some(JsonModel::Int(i as int)),
        None => None,
    }
}

/// What a lookup finds for a text's key.
pub open spec fn found_text(value: Option<Seq<char>>) -> Option<JsonModel> {
    match value {
        Some(t) => Some(JsonModel::Text(t)),
        None => None,
    }
}

/// Among the record's own members, each reserved key finds the field that it
/// names.
proof fn lemma_own_lookup(record: NotificationDataView)
    ensures
        lookup(record.own_members(), "id"@) == found_int(record.id),
        lookup(record.own_members(), "title"@) == found_text(record.title),
        lookup(record.own_members(), "body"@) == found_text(record.body),
        lookup(record.own_members(), "channelId"@) == found_text(record.channel_id),
{
    lemma_reserved_keys();
    let id = int_member("id"@, record.id);
    let title = text_member("title"@, record.title);
    let body = text_member("body"@, record.body);
    let channel = text_member("channelId"@, record.channel_id);
    assert forall|key: Seq<char>| is_reserved(key) implies lookup(record.own_members(), key)
        == match lookup(channel, key) {
        Some(v) => Some(v),
        None => match lookup(body, key) {
            Some(v) => Some(v),
            None => match lookup(title, key) {
                Some(v) => Some(v),
                None => lookup(id, key),
            },
        },
    } by {
        lemma_lookup_add(id + title + body, channel, key);
        lemma_lookup_add(id + title, body, key);
        lemma_lookup_add(id, title, key);
    }
    assert forall|key: Seq<char>| is_reserved(key) implies lookup(id, key) == (if key == "id"@ {
        found_int(record.id)
    } else {
        None
    }) by {
        lemma_lookup_single(id, key);
    }
    assert forall|key: Seq<char>| is_reserved(key) implies lookup(title, key) == (if key
        == "title"@ {
        found_text(record.title)
    } else {
        None
    }) by {
        lemma_lookup_single(title, key);
    }
    assert forall|key: Seq<char>| is_reserved(key) implies lookup(body, key) == (if key
        == "body"@ {
        found_text(record.body)
    } else {
        None
    }) by {
        lemma_lookup_single(body, key);
    }
    assert forall|key: Seq<char>| is_reserved(key) implies lookup(channel, key) == (if key
        == "channelId"@ {
        found_text(record.channel_id)
    } else {
        None
    }) by {
        lemma_lookup_single(channel, key);
    }
}

/// In the wire object of a record whose extras stand apart from its own
/// members, each reserved key finds the field that it names.
pub proof fn lemma_member_lookup(record: NotificationDataView)
    requires
        record.extras_apart(),
    ensures
        lookup(record.members(), "id"@) == found_int(record.id),
        lookup(record.members(), "title"@) == found_text(record.title),
        lookup(record.members(), "body"@) == found_text(record.body),
        lookup(record.members(), "channelId"@) == found_text(record.channel_id),
{
    lemma_reserved_keys();
    lemma_own_lookup(record);
    let own = record.own_members();
    let extra = record.extra;
    lemma_lookup_absent(extra, "id"@);
    lemma_lookup_absent(extra, "title"@);
    lemma_lookup_absent(extra, "body"@);
    lemma_lookup_absent(extra, "channelId"@);
    lemma_lookup_add(own, extra, "id"@);
    lemma_lookup_add(own, extra, "title"@);
    lemma_lookup_add(own, extra, "body"@);
    lemma_lookup_add(own, extra, "channelId"@);
}

/// Of the members of such a record's wire object, the extras are those that
/// are not the record's own.
pub proof fn lemma_member_extras(record: NotificationDataView)
    requires
        record.extras_apart(),
    ensures
        record.members().filter(is_extra()) == record.extra,
{
    let own = record.own_members();
    let extra = record.extra;
    assert forall|i: int| 0 <= i < own.len() implies !is_extra()(#[trigger] own[i]) by {
        lemma_reserved_keys();
    }
    lemma_filter_none(own, is_extra());
    lemma_filter_all(extra, is_extra());
    Seq::filter_distributes_over_add(own, extra, is_extra());
    assert(own.filter(is_extra()) + extra.filter(is_extra()) =~= extra);
}

/// An object in which the reserved keys find a record's fields, and whose
/// other members are the record's extras, decodes to that record.
proof fn lemma_decode_members(members: Seq<(Seq<char>, JsonModel)>, record: NotificationDataView)
    requires
        lookup(members, "id"@) == found_int(record.id),
        lookup(members, "title"@) == found_text(record.title),
        lookup(members, "body"@) == found_text(record.body),
        lookup(members, "channelId"@) == found_text(record.channel_id),
        one_per_key(members.filter(is_extra())) == record.extra,
    ensures
        NotificationDataView::from_json(JsonModel::Object(members)) == Some(record),
{
}

/// Decoding the wire object of a record gives a valid record that holds the
/// same, also where the record repeats a key among its extras: the last
/// extra of a key is the one that counts.
pub proof fn lemma_notification_read_back(record: NotificationDataView)
    requires
        record.extras_apart(),
    ensures
        NotificationDataView::from_json(record.to_json()) is Some,
        NotificationDataView::from_json(record.to_json())->0.wf(),
        NotificationDataView::from_json(record.to_json())->0.same_fields(record),
{
    lemma_member_lookup(record);
    lemma_member_extras(record);
    let settled = NotificationDataView { extra: one_per_key(record.extra), ..record };
    lemma_decode_members(record.members(), settled);
    lemma_settled_extras(record.members());
    assert forall|key: Seq<char>| lookup(settled.extra, key) == lookup(record.extra, key) by {
        lemma_one_per_key_lookup(record.extra, key);
    }
    lemma_same_fields(settled, record);
}

/// Decoding the wire object of a valid record gives the record back, extras
/// included.
pub proof fn lemma_notification_round_trip(record: NotificationDataView)
    requires
        record.wf(),
    ensures
        NotificationDataView::from_json(record.to_json()) == Some(record),
{
    lemma_member_lookup(record);
    lemma_member_extras(record);
    lemma_one_per_key_same(record.extra);
    lemma_decode_members(record.members(), record);
}

impl NotificationData {
    /// A notification that holds nothing yet.
    pub fn new() -> (data: NotificationData)
        ensures
            data@ == NotificationDataView::empty(),
            data@.wf(),
    {
        let data = NotificationData {
            id: None,
            title: None,
            body: None,
            channel_id: None,
            extra: Vec::new(),
        };
        assert(data@.extra =~= Seq::empty());
        data
    }

    /// Whether the record is valid: no extra goes by the name of one of the
    /// record's own members, and no two extras have the same key.
    pub fn is_valid(&self) -> (valid: bool)
        ensures
            valid == self@.wf(),
    {
        let mut i: usize = 0;
        while i < self.extra.len()
            invariant
                i <= self.extra.len(),
                forall|k: int| 0 <= k < i ==> !is_reserved((#[trigger] self@.extra[k]).0),
            decreases self.extra.len() - i,
        {
            if is_reserved_key(self.extra[i].0.as_str()) {
                assert(is_reserved(self@.extra[i as int].0));
                return false;
            }
            i = i + 1;
        }
        has_distinct_keys(&self.extra)
    }

    /// Whether the two records hold the same: the same own fields, and
    /// extras that are the same map, in whatever order the extras, and the
    /// members of objects within them, stand.
    pub fn same_record(&self, other: &NotificationData) -> (same: bool)
        ensures
            same == self@.same_fields(other@),
    {
        if self.id != other.id {
            return false;
        }
        if !same_optional_text(&self.title, &other.title) {
            return false;
        }
        if !same_optional_text(&self.body, &other.body) {
            return false;
        }
        if !same_optional_text(&self.channel_id, &other.channel_id) {
            return false;
        }
        if !agree_on_keys(&self.extra, &self.extra, &other.extra) {
            proof {
                let key = choose|key: Seq<char>| !same_at(self@.extra, other@.extra, key);
                assert(!same_at(self@.extra, other@.extra, key));
            }
            return false;
        }
        if !agree_on_keys(&other.extra, &self.extra, &other.extra) {
            proof {
                let key = choose|key: Seq<char>| !same_at(self@.extra, other@.extra, key);
                assert(!same_at(self@.extra, other@.extra, key));
            }
            return false;
        }
        proof {
            let left = member_models(self.extra@);
            let right = member_models(other.extra@);
            assert forall|key: Seq<char>| same_at(left, right, key) by {
                if exists|i: int| 0 <= i < left.len() && (#[trigger] left[i]).0 == key {
                } else if exists|i: int| 0 <= i < right.len() && (#[trigger] right[i]).0 == key {
                } else {
                    lemma_lookup_absent(left, key);
                    lemma_lookup_absent(right, key);
                }
            }
        }
        true
    }

    /// The wire object of the record.
    pub fn to_json(&self) -> (json: Json)
        ensures
            json@ == self@.to_json(),
    {
        let mut members: Vec<(String, Json)> = Vec::new();
        assert(member_models(members@) =~= Seq::empty());
        push_int_member(&mut members, "id", self.id);
        push_text_member(&mut members, "title", &self.title);
        push_text_member(&mut members, "body", &self.body);
        push_text_member(&mut members, "channelId", &self.channel_id);
        push_members(&mut members, &self.extra);
        assert(member_models(members@) =~= self@.members());
        object(members)
    }

    /// The record that a wire value holds; [`BridgeError::Decode`] where the
    /// value is not an object or one of the record's own members has the
    /// wrong type.
    pub fn from_json(json: &Json) -> (decoded: Result<NotificationData, BridgeError>)
        ensures
            match NotificationDataView::from_json(json@) {
                Some(record) => decoded matches Ok(data) && data@ == record && data@.wf(),
                None => decoded == Err::<NotificationData, BridgeError>(BridgeError::Decode),
            },
    {
        let members = match json.as_object() {
            Some(members) => members,
            None => {
                return Err(BridgeError::Decode);
            },
        };
        let id = match optional_i32_field(json, "id") {
            Ok(id) => id,
            Err(e) => {
                return Err(e);
            },
        };
        let title = match optional_text_field(json, "title") {
            Ok(title) => title,
            Err(e) => {
                return Err(e);
            },
        };
        let body = match optional_text_field(json, "body") {
            Ok(body) => body,
            Err(e) => {
                return Err(e);
            },
        };
        let channel_id = match optional_text_field(json, "channelId") {
            Ok(channel_id) => channel_id,
            Err(e) => {
                return Err(e);
            },
        };
        let others = extras(members);
        let extra = settle(&others);
        let data = NotificationData { id, title, body, channel_id, extra };
        proof {
            lemma_settled_extras(member_models(members@));
        }
        Ok(data)
    }

    /// The JSON text of the record.
    pub fn to_text(&self) -> (text: String)
        ensures
            text@ == written(self@.to_json()),
    {
        encode(&self.to_json())
    }

    /// The record that a JSON text holds; [`BridgeError::Decode`] where the
    /// text is not JSON or does not have a notification's shape.
    pub fn from_text(text: &str) -> (decoded: Result<NotificationData, BridgeError>)
        ensures
            match NotificationDataView::from_text(text@) {
                Some(record) => decoded matches Ok(data) && data@ == record && data@.wf(),
                None => decoded == Err::<NotificationData, BridgeError>(BridgeError::Decode),
            },
    {
        match decode(text) {
            Ok(json) => NotificationData::from_json(&json),
            Err(e) => Err(e),
        }
    }
}

impl PartialEq for NotificationData {
    fn eq(&self, other: &NotificationData) -> (same: bool) {
        self.same_record(other)
    }
}

impl PartialEqSpecImpl for NotificationData {
    open spec fn obeys_eq_spec() -> bool {
        true
    }

    open spec fn eq_spec(&self, other: &NotificationData) -> bool {
        self@.same_fields(other@)
    }
}

impl Clone for NotificationData {
    /// A copy of the record.
    fn clone(&self) -> (copy: NotificationData)
        ensures
            copy@ == self@,
    {
        let mut extra: Vec<(String, Json)> = Vec::new();
        assert(member_models(extra@) =~= Seq::empty());
        push_members(&mut extra, &self.extra);
        assert(member_models(extra@) =~= member_models(self.extra@));
        NotificationData {
            id: self.id,
            title: self.title.clone(),
            body: self.body.clone(),
            channel_id: self.channel_id.clone(),
            extra,
        }
    }
}

/// Whether a hook, given a record of the value `received`, can return a
/// record of the value `changed`.
pub open spec fn transformed<F: Fn(NotificationData) -> NotificationData>(
    hook: F,
    received: NotificationDataView,
    changed: NotificationDataView,
) -> bool {
    exists|input: NotificationData, output: NotificationData|
        input@ == received && call_ensures(hook, (input,), output) && output@ == changed
}

/// Reads a notification from a wire value and applies a hook to it.
/// [`BridgeError::Decode`] where the value is not a notification; the hook
/// is not called then.
pub fn transform<F: Fn(NotificationData) -> NotificationData>(value: &Json, hook: F) -> (changed:
    Result<NotificationData, BridgeError>)
    requires
        forall|record: NotificationData| record@.wf() ==> call_requires(hook, (record,)),
    ensures
        match NotificationDataView::from_json(value@) {
            Some(received) => changed is Ok && transformed(hook, received, changed->Ok_0@),
            None => changed == Err::<NotificationData, BridgeError>(BridgeError::Decode),
        },
{
    match NotificationData::from_json(value) {
        Ok(record) => Ok(hook(record)),
        Err(e) => Err(e),
    }
}

/// A hook that is applied to the wire object of a valid record is applied to
/// that record: what [`transform`] returns for the encoding of `record` is
/// what the hook makes of `record` itself.
pub proof fn lemma_transform_encoded<F: Fn(NotificationData) -> NotificationData>(
    hook: F,
    record: NotificationDataView,
    changed: NotificationDataView,
)
    requires
        record.wf(),
    ensures
        NotificationDataView::from_json(record.to_json()) is Some,
        transformed(hook, NotificationDataView::from_json(record.to_json())->0, changed)
            <==> transformed(hook, record, changed),
{
    lemma_notification_round_trip(record);
}

/// The extras that are read from the members of an object go by no
/// reserved key, and no two of them have the same key.
pub proof fn lemma_settled_extras(members: Seq<(Seq<char>, JsonModel)>)
    ensures
        distinct_keys(one_per_key(members.filter(is_extra()))),
        forall|i: int|
            0 <= i < one_per_key(members.filter(is_extra())).len() ==> !is_reserved(
                (#[trigger] one_per_key(members.filter(is_extra()))[i]).0,
            ),
{
    let others = members.filter(is_extra());
    let extra = one_per_key(others);
    lemma_one_per_key_distinct(others);
    assert forall|i: int| 0 <= i < extra.len() implies !is_reserved((#[trigger] extra[i]).0) by {
        let key = extra[i].0;
        if is_reserved(key) {
            lemma_lookup_present(extra, i);
            lemma_one_per_key_lookup(others, key);
            assert forall|k: int| 0 <= k < others.len() implies (#[trigger] others[k]).0 != key by {
                members.lemma_filter_pred(is_extra(), k);
            }
            lemma_lookup_absent(others, key);
        }
    }
}

/// A record holds the same as itself, and as any record that differs from
/// it in the order of its extras alone.
pub proof fn lemma_same_fields(record: NotificationDataView, other: NotificationDataView)
    requires
        record.id == other.id,
        record.title == other.title,
        record.body == other.body,
        record.channel_id == other.channel_id,
        forall|key: Seq<char>| lookup(record.extra, key) == lookup(other.extra, key),
    ensures
        record.same_fields(other),
{
    assert forall|key: Seq<char>| same_at(record.extra, other.extra, key) by {
        match lookup(record.extra, key) {
            Some(value) => {
                lemma_same_document_itself(value);
            },
            None => {},
        }
    }
}

/// If a record holds the same as another, the other holds the same as it.
pub proof fn lemma_same_fields_turned(record: NotificationDataView, other: NotificationDataView)
    requires
        record.same_fields(other),
    ensures
        other.same_fields(record),
{
    assert forall|key: Seq<char>| same_at(other.extra, record.extra, key) by {
        assert(same_at(record.extra, other.extra, key));
        if lookup(record.extra, key) is Some {
            lemma_same_document_turned(lookup(record.extra, key)->0, lookup(other.extra, key)->0);
        }
    }
}

/// If a record holds the same as a second, and that as a third, the first
/// holds the same as the third.
pub proof fn lemma_same_fields_chained(
    record: NotificationDataView,
    second: NotificationDataView,
    third: NotificationDataView,
)
    requires
        record.same_fields(second),
        second.same_fields(third),
    ensures
        record.same_fields(third),
{
    assert forall|key: Seq<char>| same_at(record.extra, third.extra, key) by {
        assert(same_at(record.extra, second.extra, key));
        assert(same_at(second.extra, third.extra, key));
        if lookup(record.extra, key) is Some {
            lemma_same_document_chained(
                lookup(record.extra, key)->0,
                lookup(second.extra, key)->0,
                lookup(third.extra, key)->0,
            );
        }
    }
}

/// Whether two optional texts are the same.
fn same_optional_text(a: &Option<String>, b: &Option<String>) -> (same: bool)
    ensures
        same == (text_model(*a) == text_model(*b)),
{
    match (a, b) {
        (Some(x), Some(y)) => same_text(x.as_str(), y.as_str()),
        (None, None) => true,
        _ => false,
    }
}

/// Whether every key of `keys` finds the same in `left` and in `right`.
fn agree_on_keys(
    keys: &Vec<(String, Json)>,
    left: &Vec<(String, Json)>,
    right: &Vec<(String, Json)>,
) -> (agree: bool)
    ensures
        agree ==> forall|i: int|
            0 <= i < keys@.len() ==> same_at(
                member_models(left@),
                member_models(right@),
                (#[trigger] keys@[i]).0@,
            ),
        !agree ==> exists|key: Seq<char>|
            !same_at(member_models(left@), member_models(right@), key),
{
    let mut i: usize = 0;
    proof {
        assert(member_models(left@).take(left@.len() as int) =~= member_models(left@));
        assert(member_models(right@).take(right@.len() as int) =~= member_models(right@));
    }
    while i < keys.len()
        invariant
            i <= keys.len(),
            member_models(left@).take(left@.len() as int) == member_models(left@),
            member_models(right@).take(right@.len() as int) == member_models(right@),
            forall|k: int|
                0 <= k < i ==> same_at(
                    member_models(left@),
                    member_models(right@),
                    (#[trigger] keys@[k]).0@,
                ),
        decreases keys.len() - i,
    {
        let key = keys[i].0.as_str();
        let same = match (last_index_of(left, left.len(), key), last_index_of(
            right,
            right.len(),
            key,
        )) {
            (Some(l), Some(r)) => alike(&left[l].1, &right[r].1),
            (None, None) => true,
            _ => false,
        };
        if !same {
            assert(!same_at(member_models(left@), member_models(right@), key@));
            return false;
        }
        i = i + 1;
    }
    true
}

/// Whether a key names one of the record's own members.
pub fn is_reserved_key(key: &str) -> (reserved: bool)
    ensures
        reserved == is_reserved(key@),
{
    same_text(key, "id") || same_text(key, "title") || same_text(key, "body") || same_text(
        key,
        "channelId",
    )
}

/// Copies of the members that are not the record's own, in their order.
fn extras(members: &Vec<(String, Json)>) -> (extra: Vec<(String, Json)>)
    ensures
        member_models(extra@) == member_models(members@).filter(is_extra()),
{
    let ghost all = member_models(members@);
    let mut extra: Vec<(String, Json)> = Vec::new();
    let mut i: usize = 0;
    assert(all.take(0) =~= Seq::empty());
    assert(member_models(extra@) =~= Seq::empty());
    proof {
        reveal(Seq::filter);
    }
    while i < members.len()
        invariant
            i <= members.len(),
            all == member_models(members@),
            member_models(extra@) == all.take(i as int).filter(is_extra()),
        decreases members.len() - i,
    {
        let ghost before = member_models(extra@);
        proof {
            assert(all.take(i + 1) =~= all.take(i as int).push(all[i as int]));
            all.take(i as int).lemma_filter_push(all[i as int], is_extra());
        }
        if !is_reserved_key(members[i].0.as_str()) {
            let value = members[i].1.clone();
            extra.push((members[i].0.clone(), value));
            assert(member_models(extra@) =~= before.push(all[i as int]));
        }
        i = i + 1;
    }
    assert(all.take(i as int) =~= all);
    extra
}

} // verus!
