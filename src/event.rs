use vstd::prelude::*;

verus! {

/// What an outbound event carries: a data change, or a liveness ping.
#[derive(Clone, Copy, Debug, PartialEq, Eq, Structural)]
pub enum EventKind {
    Broadcast,
    Ping,
}

/// One event sent to every subscriber: `data` holds the serialized item of a
/// broadcast and is empty for a ping.
#[derive(Debug)]
pub struct OutboundEvent {
    pub kind: EventKind,
    pub data: String,
}

/// The mathematical value of an event.
pub struct EventView {
    pub kind: EventKind,
    pub data: Seq<char>,
}

impl View for OutboundEvent {
    type V = EventView;

    open spec fn view(&self) -> EventView {
        EventView { kind: self.kind, data: self.data@ }
    }
}

/// The wire name of an event kind.
pub open spec fn kind_name_spec(k: EventKind) -> Seq<char> {
    match k {
        EventKind::Broadcast => "broadcast"@,
        EventKind::Ping => "ping"@,
    }
}

impl OutboundEvent {
    /// The heartbeat event: kind ping, empty payload.
    pub fn ping() -> (r: OutboundEvent)
        ensures
            r@ == (EventView { kind: EventKind::Ping, data: Seq::<char>::empty() }),
    {
        OutboundEvent { kind: EventKind::Ping, data: String::new() }
    }

    /// A data event carrying `data` as its payload.
    pub fn broadcast(data: String) -> (r: OutboundEvent)
        ensures
            r@ == (EventView { kind: EventKind::Broadcast, data: data@ }),
    {
        OutboundEvent { kind: EventKind::Broadcast, data }
    }

    /// A copy of the event with the same kind and payload.
    pub fn duplicate(&self) -> (r: OutboundEvent)
        ensures
            r@ == self@,
    {
        OutboundEvent { kind: self.kind, data: self.data.clone() }
    }

    /// The wire name of the event's kind: "broadcast" or "ping".
    pub fn kind_name(&self) -> (r: String)
        ensures
            r@ == kind_name_spec(self.kind),
    {
        match self.kind {
            EventKind::Broadcast => "broadcast".to_owned(),
            EventKind::Ping => "ping".to_owned(),
        }
    }
}

} // verus!
