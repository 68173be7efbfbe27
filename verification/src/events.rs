//! Events that are pushed to every connected browser.

use vstd::prelude::*;

use crate::json::{fields_are_found_again, Json, JsonView};
use crate::text::owned;

verus! {

/// One event, forwarded to every connected browser.
#[derive(Debug)]
pub struct EventEnvelope {
    pub event: String,
    pub payload: Json,
}

/// What an [`EventEnvelope`] holds.
pub struct EventView {
    pub event: Seq<char>,
    pub payload: JsonView,
}

impl View for EventEnvelope {
    type V = EventView;

    open spec fn view(&self) -> EventView {
        EventView { event: self.event@, payload: self.payload@ }
    }
}

/// What a list of events holds.
pub open spec fn events_view(events: Seq<EventEnvelope>) -> Seq<EventView> {
    Seq::new(events.len(), |i: int| events[i]@)
}

/// An event under a name, with what it carries.
pub fn event(name: &str, payload: Json) -> (e: EventEnvelope)
    ensures
        e@ == (EventView { event: name@, payload: payload@ }),
{
    EventEnvelope { event: owned(name), payload }
}

/// No event.
pub fn no_events() -> (events: Vec<EventEnvelope>)
    ensures
        events_view(events@) == Seq::<EventView>::empty(),
{
    let events: Vec<EventEnvelope> = Vec::new();
    assert(events_view(events@) =~= Seq::<EventView>::empty());
    events
}

/// One event.
pub fn one_event(e: EventEnvelope) -> (events: Vec<EventEnvelope>)
    ensures
        events_view(events@) == seq![e@],
{
    let mut events: Vec<EventEnvelope> = Vec::new();
    events.push(e);
    assert(events_view(events@) =~= seq![e@]);
    events
}

/// Two events, in this order.
pub fn two_events(first: EventEnvelope, second: EventEnvelope) -> (events: Vec<EventEnvelope>)
    ensures
        events_view(events@) == seq![first@, second@],
{
    let mut events: Vec<EventEnvelope> = Vec::new();
    events.push(first);
    events.push(second);
    assert(events_view(events@) =~= seq![first@, second@]);
    events
}

impl EventEnvelope {
    /// The frame that carries the event: `{"event": ..., "payload": ...}`.
    pub fn to_json(&self) -> (out: Json)
        ensures
            out@ == JsonView::object().with("event"@, JsonView::Text(self@.event)).with(
                "payload"@,
                self@.payload,
            ),
            out@ == frame_of(self@),
    {
        Json::object().with("event", Json::text(self.event.as_str())).with(
            "payload",
            self.payload.clone(),
        )
    }
}

/// The frame that carries an event: `{"event": ..., "payload": ...}`.
pub open spec fn frame_of(e: EventView) -> JsonView {
    JsonView::object().with("event"@, JsonView::Text(e.event)).with("payload"@, e.payload)
}

/// A frame carries the name of its event and all that the event carries.
pub proof fn frames_carry_their_event(e: EventView)
    ensures
        frame_of(e).get("event"@) == Some(JsonView::Text(e.event)),
        frame_of(e).get("payload"@) == Some(e.payload),
{
    reveal_strlit("event");
    reveal_strlit("payload");
    assert("event"@.len() == 5 && "payload"@.len() == 7);
    let o0 = JsonView::object();
    let o1 = o0.with("event"@, JsonView::Text(e.event));
    fields_are_found_again(o0, "event"@, JsonView::Text(e.event));
    fields_are_found_again(o1, "payload"@, e.payload);
}

} // verus!
