//! The sending end of an event stream.
//!
//! A stream carries the events of one assistant turn in order, and holds the
//! final message in a slot that is filled once, by the first terminal event.
//! The sender queues events until whoever forwards them takes them.

use vstd::prelude::*;
use crate::types::event::{AssistantMessageEvent, EventView};
use crate::types::message::{AssistantMessage, AssistantMessageView};

verus! {

/// Handle for pushing events into an event stream.
pub struct EventStreamSender {
    queue: Vec<AssistantMessageEvent>,
    result: Option<AssistantMessage>,
    history: Ghost<Seq<EventView>>,
}

/// The final message a terminal event carries.
pub open spec fn terminal_message(event: EventView) -> Option<AssistantMessageView> {
    match event {
        EventView::Done { message, .. } => Some(message),
        EventView::Error { error, .. } => Some(error),
        _ => None,
    }
}

/// The result slot after `event` was pushed: the first terminal event fills it,
/// and nothing changes it afterwards.
pub open spec fn slot_after(
    slot: Option<AssistantMessageView>,
    event: EventView,
) -> Option<AssistantMessageView> {
    if slot.is_some() {
        slot
    } else {
        terminal_message(event)
    }
}

impl EventStreamSender {
    /// Every event pushed so far, in order.
    pub closed spec fn history(&self) -> Seq<EventView> {
        self.history@
    }

    /// The events pushed and not yet taken, in order.
    pub closed spec fn queued(&self) -> Seq<EventView> {
        self.queue.deep_view()
    }

    /// The final message, once a terminal event was pushed.
    pub closed spec fn result_slot(&self) -> Option<AssistantMessageView> {
        self.result.deep_view()
    }

    /// A sender through which nothing was pushed yet.
    pub fn new() -> (sender: Self)
        ensures
            sender.history() == Seq::<EventView>::empty(),
            sender.queued() == Seq::<EventView>::empty(),
            sender.result_slot().is_none(),
    {
        let queue: Vec<AssistantMessageEvent> = Vec::new();
        assert(queue.deep_view() =~= Seq::<EventView>::empty());
        EventStreamSender { queue, result: None, history: Ghost(Seq::empty()) }
    }

    /// Pushes an event. A terminal event also fills the result slot with the
    /// message it carries, unless the slot is filled already.
    pub fn push(&mut self, event: AssistantMessageEvent)
        ensures
            final(self).history() == old(self).history().push(event.deep_view()),
            final(self).queued() == old(self).queued().push(event.deep_view()),
            final(self).result_slot() == slot_after(old(self).result_slot(), event.deep_view()),
    {
        if self.result.is_none() {
            match &event {
                AssistantMessageEvent::Done { message, .. } => {
                    self.result = Some(message.clone());
                },
                AssistantMessageEvent::Error { error, .. } => {
                    self.result = Some(error.clone());
                },
                _ => {},
            }
        }
        proof {
            self.history@ = self.history@.push(event.deep_view());
        }
        let ghost view = event.deep_view();
        self.queue.push(event);
        assert(self.queue.deep_view() =~= old(self).queue.deep_view().push(view));
    }

    /// Hands over the queued events, oldest first, and empties the queue.
    pub fn take_events(&mut self) -> (events: Vec<AssistantMessageEvent>)
        ensures
            events.deep_view() == old(self).queued(),
            final(self).queued() == Seq::<EventView>::empty(),
            final(self).history() == old(self).history(),
            final(self).result_slot() == old(self).result_slot(),
    {
        let mut events: Vec<AssistantMessageEvent> = Vec::new();
        std::mem::swap(&mut events, &mut self.queue);
        assert(self.queue.deep_view() =~= Seq::<EventView>::empty());
        events
    }

    /// The number of queued events.
    pub fn queued_len(&self) -> (len: usize)
        ensures
            len == self.queued().len(),
    {
        self.queue.len()
    }

    /// The final message, once a terminal event was pushed.
    pub fn result(&self) -> (message: Option<AssistantMessage>)
        ensures
            message.deep_view() == self.result_slot(),
    {
        match &self.result {
            Some(message) => Some(message.clone()),
            None => None,
        }
    }

    /// Ends the stream without a terminal event by giving up the sender.
    pub fn end(self) {
    }
}

} // verus!
