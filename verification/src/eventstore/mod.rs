//! Event store trait and implementations.

use vstd::prelude::*;

use crate::Error;
use crate::Event;
use crate::cloudevents::CloudEvent;
use crate::cloudevents::envelopes_event;

pub mod inmemory;
pub mod orgeventstore;

pub use self::inmemory::MemoryEventStore;
pub use self::orgeventstore::OrgEventStore;

verus! {

/// The append-only persistence abstraction for envelopes.
///
/// `append` wraps an event into an envelope (assigning id and timestamp),
/// durably records it, and returns the envelope. A success always carries an
/// envelope wrapping exactly the given event; a failure is always a
/// `StoreFailure` and leaves no partial write behind.
pub trait EventStore<E: Event> {
    fn append(&mut self, evt: E, stream: &str) -> (r: Result<CloudEvent<E>, Error>)
        ensures
            r matches Ok(env) ==> envelopes_event(env, evt),
            r matches Err(e) ==> e.kind is StoreFailure,
    ;
}

} // verus!
