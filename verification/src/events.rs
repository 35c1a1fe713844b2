//! Events from the native side, and the bus that hands them to the host's
//! listeners.
//!
//! The native side invokes a channel handler once for each event, with a
//! body. The handler for performed actions reads the body as a payload and
//! turns it into an event for the whole host; a body that cannot be read is
//! set aside, and the channel goes on. The bus knows who listens to which
//! event: every registration is a listener of its own, so registering for
//! one event twice makes two listeners, and both receive.

use crate::codec::{decode, json_parsed};
use crate::json::{Json, JsonModel};
use crate::mobile::{
    action_performed_host_event, NotificationActionPerformedPayload,
    NotificationActionPerformedPayloadView,
};
use vstd::prelude::*;

verus! {

/// What the native side hands to a channel handler: JSON text, or bytes.
#[derive(Debug, Clone, PartialEq, Eq)]
pub enum ChannelBody {
    Json(String),
    Raw(Vec<u8>),
}

/// The mathematical value of a [`ChannelBody`].
pub enum ChannelBodyView {
    Json(Seq<char>),
    Raw(Seq<u8>),
}

impl View for ChannelBody {
    type V = ChannelBodyView;

    open spec fn view(&self) -> ChannelBodyView {
        match self {
            ChannelBody::Json(text) => ChannelBodyView::Json(text@),
            ChannelBody::Raw(bytes) => ChannelBodyView::Raw(bytes@),
        }
    }
}

/// An event for the whole host.
#[derive(Debug, Clone, PartialEq, Eq)]
pub struct HostEvent {
    pub name: String,
    pub payload: Json,
}

/// The mathematical value of a [`HostEvent`].
pub struct HostEventView {
    pub name: Seq<char>,
    pub payload: JsonModel,
}

impl View for HostEvent {
    type V = HostEventView;

    open spec fn view(&self) -> HostEventView {
        HostEventView { name: self.name@, payload: self.payload@ }
    }
}

/// What a channel handler makes of one invocation.
#[derive(Debug, Clone, PartialEq, Eq)]
pub enum ChannelOutcome {
    /// The body was read: this event goes out to the host.
    Emit(HostEvent),
    /// The body is not JSON, or JSON of another shape. Nothing goes out;
    /// the failure is worth a line in the log and is not passed on.
    Malformed,
    /// The body is not text, and is passed over.
    Ignored,
}

/// The mathematical value of a [`ChannelOutcome`].
pub enum ChannelOutcomeView {
    Emit(HostEventView),
    Malformed,
    Ignored,
}

impl View for ChannelOutcome {
    type V = ChannelOutcomeView;

    open spec fn view(&self) -> ChannelOutcomeView {
        match self {
            ChannelOutcome::Emit(event) => ChannelOutcomeView::Emit(event@),
            ChannelOutcome::Malformed => ChannelOutcomeView::Malformed,
            ChannelOutcome::Ignored => ChannelOutcomeView::Ignored,
        }
    }
}

/// The host event that announces a performed action.
pub open spec fn action_performed(
    payload: NotificationActionPerformedPayloadView,
) -> HostEventView {
    HostEventView { name: action_performed_host_event(), payload: payload.to_json() }
}

/// What is made of the value of an `actionPerformed` event; the value is
/// `None` where the body was not JSON.
pub open spec fn announced(value: Option<JsonModel>) -> ChannelOutcomeView {
    match value {
        Some(json) => match NotificationActionPerformedPayloadView::from_json(json) {
            Some(payload) => ChannelOutcomeView::Emit(action_performed(payload)),
            None => ChannelOutcomeView::Malformed,
        },
        None => ChannelOutcomeView::Malformed,
    }
}

/// Announces a performed action from the value of its event: a value that
/// holds a payload goes out to the host as `notification-action-performed`,
/// with the payload written out again; any other value is malformed.
pub fn announce_action(value: &Json) -> (outcome: ChannelOutcome)
    ensures
        outcome@ == announced(Some(value@)),
{
    match NotificationActionPerformedPayload::from_json(value) {
        Ok(payload) => ChannelOutcome::Emit(
            HostEvent {
                name: "notification-action-performed".to_owned(),
                payload: payload.to_json(),
            },
        ),
        Err(_) => ChannelOutcome::Malformed,
    }
}

/// Handles one invocation of the channel for performed actions. A body of
/// JSON text is read and announced as [`announce_action`] does; a failure to
/// read it is not passed on, so the channel stays registered and the next
/// event is handled like the first.
pub fn on_action_performed(body: &ChannelBody) -> (outcome: ChannelOutcome)
    ensures
        outcome@ == match body@ {
            ChannelBodyView::Json(text) => announced(json_parsed(text)),
            ChannelBodyView::Raw(_) => ChannelOutcomeView::Ignored,
        },
{
    match body {
        ChannelBody::Json(text) => match decode(text.as_str()) {
            Ok(value) => announce_action(&value),
            Err(_) => ChannelOutcome::Malformed,
        },
        ChannelBody::Raw(_) => ChannelOutcome::Ignored,
    }
}

/// The listeners of a bus, oldest first, each with the event that it listens
/// to, and the identifier that the next listener gets.
pub struct EventBusView {
    pub listeners: Seq<(u64, Seq<char>)>,
    pub next_id: u64,
}

/// The identifiers of the listeners of an event, oldest first.
pub open spec fn recipients_of(listeners: Seq<(u64, Seq<char>)>, event: Seq<char>) -> Seq<u64>
    decreases listeners.len(),
{
    if listeners.len() == 0 {
        Seq::empty()
    } else {
        let earlier = recipients_of(listeners.drop_last(), event);
        if listeners.last().1 == event {
            earlier.push(listeners.last().0)
        } else {
            earlier
        }
    }
}

/// The position of the listener with an identifier, if there is one.
pub open spec fn position_of(listeners: Seq<(u64, Seq<char>)>, id: u64) -> Option<int> {
    if exists|i: int| 0 <= i < listeners.len() && (#[trigger] listeners[i]).0 == id {
        Some(choose|i: int| 0 <= i < listeners.len() && (#[trigger] listeners[i]).0 == id)
    } else {
        None
    }
}

impl EventBusView {
    /// The identifiers in use are below the next one, and a later listener
    /// has a larger identifier than an earlier one.
    pub open spec fn wf(self) -> bool {
        &&& forall|i: int|
            0 <= i < self.listeners.len() ==> (#[trigger] self.listeners[i]).0 < self.next_id
        &&& forall|i: int, j: int|
            0 <= i < j < self.listeners.len() ==> (#[trigger] self.listeners[i]).0 < (
            #[trigger] self.listeners[j]).0
    }

    /// Whether there is an identifier left for one more listener.
    pub open spec fn has_room(self) -> bool {
        self.next_id < u64::MAX
    }

    /// The bus with one more listener for an event.
    pub open spec fn subscribed(self, event: Seq<char>) -> EventBusView {
        EventBusView {
            listeners: self.listeners.push((self.next_id, event)),
            next_id: (self.next_id + 1) as u64,
        }
    }

    /// The bus without the listener of an identifier.
    pub open spec fn unsubscribed(self, id: u64) -> EventBusView {
        match position_of(self.listeners, id) {
            Some(i) => EventBusView { listeners: self.listeners.remove(i), next_id: self.next_id },
            None => self,
        }
    }

    /// The identifiers of the listeners of an event, oldest first.
    pub open spec fn recipients(self, event: Seq<char>) -> Seq<u64> {
        recipients_of(self.listeners, event)
    }
}

/// A new listener is the last to receive its own event, and receives no
/// other.
pub proof fn lemma_subscribed_recipients(bus: EventBusView, event: Seq<char>, other: Seq<char>)
    ensures
        bus.subscribed(event).recipients(other) == if other == event {
            bus.recipients(other).push(bus.next_id)
        } else {
            bus.recipients(other)
        },
{
    let listeners = bus.subscribed(event).listeners;
    assert(listeners.drop_last() =~= bus.listeners);
}

/// Two registrations for one event are two listeners, and both receive
/// every event of that name: the second does not replace the first. The
/// listeners of other events stay as they were.
pub proof fn lemma_both_registrations_receive(bus: EventBusView, event: Seq<char>, other: Seq<char>)
    requires
        bus.wf(),
        bus.has_room(),
        bus.subscribed(event).has_room(),
    ensures
        ({
            let first = bus.next_id;
            let second = bus.subscribed(event).next_id;
            let twice = bus.subscribed(event).subscribed(event);
            &&& first != second
            &&& twice.wf()
            &&& twice.recipients(event) == bus.recipients(event).push(first).push(second)
            &&& other != event ==> twice.recipients(other) == bus.recipients(other)
        }),
{
    let once = bus.subscribed(event);
    lemma_subscribed_recipients(bus, event, event);
    lemma_subscribed_recipients(once, event, event);
    lemma_subscribed_recipients(bus, event, other);
    lemma_subscribed_recipients(once, event, other);
}

/// One message for one listener.
#[derive(Debug, Clone, PartialEq, Eq)]
pub struct Delivery {
    pub listener: u64,
    pub payload: Json,
}

/// The bus of the host's listeners.
pub struct EventBus {
    listeners: Vec<(u64, String)>,
    next_id: u64,
}

/// The identifiers and event names of a list of listeners.
pub open spec fn listener_views(listeners: Seq<(u64, String)>) -> Seq<(u64, Seq<char>)> {
    Seq::new(listeners.len(), |i: int| (listeners[i].0, listeners[i].1@))
}

impl View for EventBus {
    type V = EventBusView;

    closed spec fn view(&self) -> EventBusView {
        EventBusView { listeners: listener_views(self.listeners@), next_id: self.next_id }
    }
}

impl EventBus {
    #[verifier::type_invariant]
    spec fn well_formed(self) -> bool {
        self@.wf()
    }

    /// A bus without listeners.
    pub fn new() -> (bus: EventBus)
        ensures
            bus@ == (EventBusView { listeners: Seq::empty(), next_id: 0 }),
            bus@.wf(),
    {
        let bus = EventBus { listeners: Vec::new(), next_id: 0 };
        assert(bus@.listeners =~= Seq::empty());
        bus
    }

    /// Takes the listeners and the next identifier out of the bus, which is
    /// left empty until they are put back.
    fn take(&mut self) -> (parts: (Vec<(u64, String)>, u64))
        ensures
            listener_views(parts.0@) == old(self)@.listeners,
            parts.1 == old(self)@.next_id,
            old(self)@.wf(),
    {
        proof {
            use_type_invariant(&*self);
        }
        let mut taken = EventBus::new();
        core::mem::swap(self, &mut taken);
        (taken.listeners, taken.next_id)
    }

    /// Registers a listener for an event and returns its identifier. Where
    /// no identifier is left, nothing is registered.
    pub fn subscribe(&mut self, event: &str) -> (id: Option<u64>)
        ensures
            if old(self)@.has_room() {
                id == Some(old(self)@.next_id) && final(self)@ == old(self)@.subscribed(event@)
            } else {
                id is None && final(self)@ == old(self)@
            },
            final(self)@.wf(),
    {
        let (mut listeners, next_id) = self.take();
        let ghost before = listener_views(listeners@);
        if next_id == u64::MAX {
            *self = EventBus { listeners, next_id };
            return None;
        }
        listeners.push((next_id, event.to_owned()));
        proof {
            assert(listener_views(listeners@) =~= before.push((next_id, event@)));
        }
        *self = EventBus { listeners, next_id: next_id + 1 };
        Some(next_id)
    }

    /// Removes the listener with an identifier; tells whether there was
    /// one.
    pub fn unsubscribe(&mut self, id: u64) -> (removed: bool)
        ensures
            removed == (position_of(old(self)@.listeners, id) is Some),
            final(self)@ == old(self)@.unsubscribed(id),
            final(self)@.wf(),
    {
        let (mut listeners, next_id) = self.take();
        let ghost before = listener_views(listeners@);
        let mut i: usize = 0;
        let mut removed = false;
        while i < listeners.len()
            invariant_except_break
                i <= listeners.len(),
                !removed,
                listener_views(listeners@) == before,
                forall|k: int| 0 <= k < i ==> (#[trigger] before[k]).0 != id,
            invariant
                (EventBusView { listeners: before, next_id }).wf(),
            ensures
                removed == (position_of(before, id) is Some),
                listener_views(listeners@) == (EventBusView {
                    listeners: before,
                    next_id,
                }).unsubscribed(id).listeners,
            decreases listeners.len() - i,
        {
            if listeners[i].0 == id {
                proof {
                    assert(0 <= i < before.len());
                    assert(before[i as int].0 == id);
                    let found = position_of(before, id);
                    assert(found is Some);
                    assert(0 <= found->0 < before.len());
                    // Identifiers differ from listener to listener.
                    assert(found->0 == i) by {
                        if found->0 < i {
                            assert(before[found->0].0 < before[i as int].0);
                        } else if found->0 > i {
                            let view = EventBusView { listeners: before, next_id };
                            assert(view.wf());
                            assert(view.listeners[i as int].0 < view.listeners[found->0].0);
                        }
                    }
                }
                listeners.remove(i);
                proof {
                    assert(listener_views(listeners@) =~= before.remove(i as int));
                }
                removed = true;
                break;
            }
            i = i + 1;
        }
        *self = EventBus { listeners, next_id };
        removed
    }

    /// The number of listeners.
    pub fn len(&self) -> (len: usize)
        ensures
            len == self@.listeners.len(),
            self@.wf(),
    {
        proof {
            use_type_invariant(self);
        }
        self.listeners.len()
    }

    /// The identifiers of the listeners of an event, oldest first.
    pub fn recipients(&self, event: &str) -> (ids: Vec<u64>)
        ensures
            ids@ == self@.recipients(event@),
    {
        let ghost all = self@.listeners;
        let mut ids: Vec<u64> = Vec::new();
        let mut i: usize = 0;
        assert(all.take(0) =~= Seq::empty());
        while i < self.listeners.len()
            invariant
                i <= self.listeners.len(),
                all == self@.listeners,
                ids@ == recipients_of(all.take(i as int), event@),
            decreases self.listeners.len() - i,
        {
            proof {
                assert(all.take(i + 1).drop_last() =~= all.take(i as int));
                assert(all.take(i + 1).last() == all[i as int]);
            }
            if crate::json::same_text(self.listeners[i].1.as_str(), event) {
                ids.push(self.listeners[i].0);
            }
            i = i + 1;
        }
        assert(all.take(i as int) =~= all);
        ids
    }

    /// One delivery of the event's payload for each listener of the event's
    /// name, oldest first. The bus itself is not changed: every later event
    /// of the name goes to the same listeners.
    pub fn emit(&self, event: &HostEvent) -> (deliveries: Vec<Delivery>)
        ensures
            deliveries@.len() == self@.recipients(event@.name).len(),
            forall|i: int|
                0 <= i < deliveries@.len() ==> (#[trigger] deliveries@[i]).listener
                    == self@.recipients(event@.name)[i] && deliveries@[i].payload@
                    == event@.payload,
    {
        let ids = self.recipients(event.name.as_str());
        let mut deliveries: Vec<Delivery> = Vec::new();
        let mut i: usize = 0;
        while i < ids.len()
            invariant
                i <= ids.len(),
                deliveries.len() == i,
                forall|k: int|
                    0 <= k < i ==> (#[trigger] deliveries@[k]).listener == ids@[k]
                        && deliveries@[k].payload@ == event@.payload,
            decreases ids.len() - i,
        {
            deliveries.push(Delivery { listener: ids[i], payload: event.payload.clone() });
            i = i + 1;
        }
        deliveries
    }
}

} // verus!
