//! The subscription loop as a state machine: the caller owns the connection
//! and awaits its events, and asks here what each of them calls for.

use crate::config::{Configuration, KEEP_ALIVE_SECS};
use vstd::prelude::*;

verus! {

/// One message as it arrives from the bus.
#[derive(Clone, Debug, PartialEq, Eq)]
pub struct RawMessage {
    /// The topic that the message was published on.
    pub topic: String,
    /// The body, as yet undecoded.
    pub payload: Vec<u8>,
}

/// Delivery guarantee of a subscription.
#[derive(Clone, Copy, Debug, PartialEq, Eq, Structural)]
pub enum QualityOfService {
    /// A message may be lost, and is never delivered twice.
    AtMostOnce,
    /// A message is repeated until it is acknowledged.
    AtLeastOnce,
    /// A message arrives once and only once.
    ExactlyOnce,
}

/// What is asked of the bus at startup.
#[derive(Clone, Debug, PartialEq, Eq)]
pub struct SubscribeRequest {
    pub topic: String,
    pub delivery: QualityOfService,
    pub keep_alive_secs: u64,
}

/// What one turn of the receive loop yields.
#[derive(Clone, Debug, PartialEq, Eq)]
pub enum BusEvent {
    /// A message on the subscribed topic.
    Message(RawMessage),
    /// Any other event of the protocol.
    Protocol,
    /// The connection failed; the text says how.
    ConnectionError(String),
}

/// What the loop does with an event before it takes the next one.
#[derive(Clone, Debug, PartialEq, Eq)]
pub enum LoopAction {
    /// Hand the message to a handler of its own and do not wait for it.
    Dispatch(RawMessage),
    /// Nothing.
    Ignore,
    /// Report the failure and go on.
    ReportError(String),
}

/// Where the loop stands.
#[derive(Clone, Copy, Debug, PartialEq, Eq, Structural)]
pub enum LoopState {
    /// The connection is being opened.
    Connecting,
    /// The subscription was asked for; no event has been received yet.
    Subscribed,
    /// The last event was a message, which was dispatched.
    Dispatching,
    /// The last event called for nothing.
    Idle,
    /// The last event was a failure of the connection, which was reported.
    ErrorLogged,
}

impl LoopState {
    /// Whether the loop has received an event.
    pub open spec fn in_receive_loop(self) -> bool {
        self is Dispatching || self is Idle || self is ErrorLogged
    }

    /// The state after the subscription was asked for: only a loop that is
    /// still connecting moves.
    pub open spec fn after_subscribe(self) -> LoopState {
        if self is Connecting {
            LoopState::Subscribed
        } else {
            self
        }
    }
}

/// The action that an event calls for.
pub open spec fn action_of(event: BusEvent) -> LoopAction {
    match event {
        BusEvent::Message(message) => LoopAction::Dispatch(message),
        BusEvent::Protocol => LoopAction::Ignore,
        BusEvent::ConnectionError(text) => LoopAction::ReportError(text),
    }
}

/// The state that the loop is in after an event.
pub open spec fn state_after(event: BusEvent) -> LoopState {
    match event {
        BusEvent::Message(_) => LoopState::Dispatching,
        BusEvent::Protocol => LoopState::Idle,
        BusEvent::ConnectionError(_) => LoopState::ErrorLogged,
    }
}

/// The one subscription of the bridge. It holds no message and no count:
/// nothing of one event is kept for the next but the state.
#[derive(Clone, Debug, PartialEq, Eq)]
pub struct SubscriptionLoop {
    pub state: LoopState,
    pub topic: String,
}

impl SubscriptionLoop {
    /// A loop for the configured topic, not yet connected.
    pub fn new(config: &Configuration) -> (r: SubscriptionLoop)
        ensures
            r.state == LoopState::Connecting,
            r.topic@ == config.mqtt_topic@,
    {
        SubscriptionLoop { state: LoopState::Connecting, topic: config.mqtt_topic.clone() }
    }

    /// Gives the subscription to ask for: on the loop's topic, with
    /// at-most-once delivery and the fixed keep-alive interval.
    pub fn subscribe(&mut self) -> (request: SubscribeRequest)
        ensures
            final(self).state == old(self).state.after_subscribe(),
            final(self).topic == old(self).topic,
            request.topic@ == old(self).topic@,
            request.delivery == QualityOfService::AtMostOnce,
            request.keep_alive_secs == KEEP_ALIVE_SECS,
    {
        match self.state {
            LoopState::Connecting => {
                self.state = LoopState::Subscribed;
            },
            _ => {},
        }
        SubscribeRequest {
            topic: self.topic.clone(),
            delivery: QualityOfService::AtMostOnce,
            keep_alive_secs: KEEP_ALIVE_SECS,
        }
    }

    /// Takes one event: a message is dispatched with topic and payload
    /// untouched, another event of the protocol is ignored, and a failure of
    /// the connection is reported. The loop goes on in each case: no event
    /// ends it.
    pub fn on_event(&mut self, event: BusEvent) -> (action: LoopAction)
        ensures
            final(self).state == state_after(event),
            final(self).state.in_receive_loop(),
            final(self).topic == old(self).topic,
            action == action_of(event),
    {
        match event {
            BusEvent::Message(message) => {
                self.state = LoopState::Dispatching;
                LoopAction::Dispatch(message)
            },
            BusEvent::Protocol => {
                self.state = LoopState::Idle;
                LoopAction::Ignore
            },
            BusEvent::ConnectionError(text) => {
                self.state = LoopState::ErrorLogged;
                LoopAction::ReportError(text)
            },
        }
    }
}

/// The state of a loop that started in `start` and took `events`.
pub open spec fn state_after_all(start: LoopState, events: Seq<BusEvent>) -> LoopState {
    if events.len() == 0 {
        start
    } else {
        state_after(events.last())
    }
}

/// The messages that a run of events dispatches, in the order of arrival.
pub open spec fn dispatched(events: Seq<BusEvent>) -> Seq<RawMessage>
    decreases events.len(),
{
    if events.len() == 0 {
        Seq::empty()
    } else {
        match events.last() {
            BusEvent::Message(message) => dispatched(events.drop_last()).push(message),
            _ => dispatched(events.drop_last()),
        }
    }
}

/// Once the loop receives, it never leaves the receive loop, whatever the
/// events are: a failure of the connection is one more turn of it.
pub proof fn lemma_loop_never_ends(start: LoopState, events: Seq<BusEvent>)
    requires
        start.in_receive_loop() || events.len() > 0,
    ensures
        state_after_all(start, events).in_receive_loop(),
{
}

/// Taking events one by one leads where the whole run leads.
pub proof fn lemma_state_follows_last_event(
    start: LoopState,
    events: Seq<BusEvent>,
    event: BusEvent,
)
    ensures
        state_after_all(state_after_all(start, events), seq![event]) == state_after_all(
            start,
            events.push(event),
        ),
{
    assert(seq![event].last() == event);
    assert(events.push(event).last() == event);
}

/// An event that is no message dispatches nothing and takes nothing from
/// what was dispatched before it.
pub proof fn lemma_failure_dispatches_nothing(events: Seq<BusEvent>, event: BusEvent)
    requires
        !(event is Message),
    ensures
        dispatched(events.push(event)) == dispatched(events),
{
    assert(events.push(event).drop_last() =~= events);
    assert(events.push(event).last() == event);
}

/// A message is dispatched behind every message that arrived before it.
pub proof fn lemma_dispatch_keeps_arrival_order(events: Seq<BusEvent>, message: RawMessage)
    ensures
        dispatched(events.push(BusEvent::Message(message))) == dispatched(events).push(message),
{
    let event = BusEvent::Message(message);
    assert(events.push(event).drop_last() =~= events);
    assert(events.push(event).last() == event);
}

} // verus!
