//! The decisions of the input relay.
//!
//! The relay is a task of its own beside the coordination loop. It waits for
//! a line from the console and puts it into the bounded queue that the loop
//! drains, waiting while the queue is full. It ends when the console does,
//! or when the queue has lost its consumer. The waiting is the caller's; what
//! to do next is decided here.
use vstd::prelude::*;

verus! {

/// How many lines the queue between the relay and the loop can hold. A relay
/// that finds it full waits; no line is dropped.
pub const QUEUE_CAPACITY: usize = 32;

/// What the relay met.
#[derive(Debug, PartialEq, Eq)]
pub enum RelayEvent {
    /// The console delivered a line.
    Line(String),
    /// The console is at its end.
    EndOfInput,
    /// This line could not be queued: nobody reads the queue any more.
    QueueClosed(String),
}

/// What a [`RelayEvent`] is to the contracts.
pub enum RelayEventView {
    Line(Seq<char>),
    EndOfInput,
    QueueClosed(Seq<char>),
}

impl View for RelayEvent {
    type V = RelayEventView;

    open spec fn view(&self) -> RelayEventView {
        match *self {
            RelayEvent::Line(text) => RelayEventView::Line(text@),
            RelayEvent::EndOfInput => RelayEventView::EndOfInput,
            RelayEvent::QueueClosed(text) => RelayEventView::QueueClosed(text@),
        }
    }
}

/// What the relay is to do.
#[derive(Debug, PartialEq, Eq)]
pub enum RelayAction {
    /// Put this line into the queue, waiting for room if need be; then read
    /// the next line.
    Enqueue(String),
    /// Tell the operator that this line was lost with the queue; then end.
    ReportLost(String),
    /// End.
    Finish,
}

/// What a [`RelayAction`] is to the contracts.
pub enum RelayActionView {
    Enqueue(Seq<char>),
    ReportLost(Seq<char>),
    Finish,
}

impl View for RelayAction {
    type V = RelayActionView;

    open spec fn view(&self) -> RelayActionView {
        match *self {
            RelayAction::Enqueue(text) => RelayActionView::Enqueue(text@),
            RelayAction::ReportLost(text) => RelayActionView::ReportLost(text@),
            RelayAction::Finish => RelayActionView::Finish,
        }
    }
}

/// Whether a relay that was running, or not, still runs after `event`.
pub open spec fn runs_after(running: bool, event: RelayEventView) -> bool {
    running && event is Line
}

/// What a relay that was running, or not, does on `event`.
pub open spec fn relay_action(running: bool, event: RelayEventView) -> RelayActionView {
    if !running {
        RelayActionView::Finish
    } else {
        match event {
            RelayEventView::Line(text) => RelayActionView::Enqueue(text),
            RelayEventView::EndOfInput => RelayActionView::Finish,
            RelayEventView::QueueClosed(text) => RelayActionView::ReportLost(text),
        }
    }
}

/// The state of the relay: whether it still runs.
#[derive(Debug)]
pub struct Relay {
    running: bool,
}

impl View for Relay {
    type V = bool;

    /// Whether the relay still runs.
    closed spec fn view(&self) -> bool {
        self.running
    }
}

impl Relay {
    /// A relay that runs.
    pub fn new() -> (relay: Relay)
        ensures
            relay@,
    {
        Relay { running: true }
    }

    /// Whether the relay still runs.
    pub fn is_running(&self) -> (running: bool)
        ensures
            running == self@,
    {
        self.running
    }

    /// Decides what follows `event`. Every line goes on to the queue as it
    /// came; the end of the console ends the relay quietly, the loss of the
    /// queue ends it with a report. A relay that has ended stays so.
    pub fn step(&mut self, event: RelayEvent) -> (action: RelayAction)
        ensures
            final(self)@ == runs_after(old(self)@, event@),
            action@ == relay_action(old(self)@, event@),
    {
        if !self.running {
            return RelayAction::Finish;
        }
        match event {
            RelayEvent::Line(text) => RelayAction::Enqueue(text),
            RelayEvent::EndOfInput => {
                self.running = false;
                RelayAction::Finish
            },
            RelayEvent::QueueClosed(text) => {
                self.running = false;
                RelayAction::ReportLost(text)
            },
        }
    }
}

/// A relay that has ended never runs again and never queues a line.
pub proof fn lemma_ended_relay_stays(event: RelayEventView)
    ensures
        !runs_after(false, event),
        relay_action(false, event) == RelayActionView::Finish,
{
}

} // verus!
