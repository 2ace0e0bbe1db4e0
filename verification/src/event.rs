//! The two values that flow through the relay: a captured notification and
//! the timed directive derived from it.

use vstd::prelude::*;

verus! {

/// Mathematical image of a notification event.
#[verifier::ext_equal]
pub ghost struct EventView {
    pub source_app: Seq<char>,
    pub title: Seq<char>,
    pub body: Seq<char>,
    pub received_at: u64,
}

/// One OS notification, as captured by the source: the identifier of the
/// application that raised it, its text, and the moment of capture
/// (a timestamp in milliseconds; the relay only carries it along).
pub struct NotificationEvent {
    pub source_app: String,
    pub title: String,
    pub body: String,
    pub received_at: u64,
}

impl View for NotificationEvent {
    type V = EventView;

    open spec fn view(&self) -> EventView {
        EventView {
            source_app: self.source_app@,
            title: self.title@,
            body: self.body@,
            received_at: self.received_at,
        }
    }
}

/// Mathematical image of a display directive.
#[verifier::ext_equal]
pub ghost struct DirectiveView {
    pub title: Seq<char>,
    pub body: Seq<char>,
    pub timeout: u64,
    pub target_host: Seq<char>,
    pub target_port: usize,
}

/// One unit of work for the sink: the text to show, how long to show it
/// (seconds), and the endpoint to show it on.  Derived one-for-one from a
/// `NotificationEvent` that passed filtering.
pub struct DisplayDirective {
    pub title: String,
    pub body: String,
    pub timeout: u64,
    pub target_host: String,
    pub target_port: usize,
}

impl View for DisplayDirective {
    type V = DirectiveView;

    open spec fn view(&self) -> DirectiveView {
        DirectiveView {
            title: self.title@,
            body: self.body@,
            timeout: self.timeout,
            target_host: self.target_host@,
            target_port: self.target_port,
        }
    }
}

} // verus!
