//! What a browser tells its user.

use super::presence::{Responder, ResponderView};
use crate::net::SocketAddr;
use std::sync::Arc;
use vstd::prelude::*;

verus! {

/// An event as mathematical values.
pub enum EventView {
    /// A new responder was found.
    ResponderFound(ResponderView),
    /// A responder was lost.
    ResponderLost(ResponderView),
    /// A responder was updated.
    ResponseUpdate { old: ResponderView, new: ResponderView },
}

impl EventView {
    /// The address of the responder that the event tells of.
    pub open spec fn addr(self) -> SocketAddr {
        match self {
            EventView::ResponderFound(r) => r.addr,
            EventView::ResponderLost(r) => r.addr,
            EventView::ResponseUpdate { old, new } => new.addr,
        }
    }
}

/// An event that can occur during discovery.
#[derive(Debug)]
pub enum DiscoveryEvent {
    /// A new responder was found.
    ResponderFound(Arc<Responder>),
    /// A responder was lost.
    ///
    /// This means the responder didn't respond to a query for a while, so
    /// we assume it's gone.
    ResponderLost(Arc<Responder>),
    /// A responder was updated.
    ///
    /// This will occur even if the data in the DNS response is the same,
    /// it's up to you to detect whether the data has changed in the context
    /// of your application.
    ResponseUpdate {
        /// The previous state of the responder.
        old: Arc<Responder>,
        /// The new state of the responder.
        new: Arc<Responder>,
    },
}

impl View for DiscoveryEvent {
    type V = EventView;

    open spec fn view(&self) -> EventView {
        match *self {
            DiscoveryEvent::ResponderFound(r) => EventView::ResponderFound(r@),
            DiscoveryEvent::ResponderLost(r) => EventView::ResponderLost(r@),
            DiscoveryEvent::ResponseUpdate { old, new } => EventView::ResponseUpdate {
                old: old@,
                new: new@,
            },
        }
    }
}

/// The events of a list as mathematical values.
pub open spec fn spec_event_views(events: Seq<DiscoveryEvent>) -> Seq<EventView> {
    Seq::new(events.len(), |i: int| events[i]@)
}

} // verus!
