//! Standard prelude for event sourcing applications.

pub use crate::Aggregate;
pub use crate::AggregateState;
pub use crate::Dispatcher;
pub use crate::Event;
pub use crate::Kind;
pub use crate::cloudevents::CloudEvent;
pub use crate::eventstore::EventStore;
