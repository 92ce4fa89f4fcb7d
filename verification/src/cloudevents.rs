//! Cloud event envelopes.
//!
//! This module provides the self-describing wrapper placed around a domain
//! event when it is persisted or transported: type name, type version,
//! source, a fresh unique id, a timestamp, a content type, and the event
//! payload itself as structured data.

use vstd::prelude::*;
use vstd::string::StringExecFns;

use crate::Error;
use crate::Event;
use crate::Kind;

verus! {

/// The metadata-enriched wrapper around a persisted event.
///
/// `event_time` is nanoseconds since the Unix epoch; `data` is the event
/// itself, kept structured so that consumers can inspect its fields without
/// double-decoding (its JSON text is `data.data_json()`).
#[derive(Debug)]
pub struct CloudEvent<E> {
    pub cloud_events_version: String,
    pub event_type: String,
    pub event_type_version: String,
    pub source: String,
    pub event_id: String,
    pub event_time: i64,
    pub content_type: String,
    pub data: E,
}

/// The envelope `env` wraps exactly the event `evt`: the payload is `evt`
/// itself and every metadata facet agrees with the event's own.
pub open spec fn envelopes_event<E: Event>(env: CloudEvent<E>, evt: E) -> bool {
    &&& env.data == evt
    &&& env.event_type@ == evt.event_type_spec()
    &&& env.event_type_version@ == evt.event_type_version_spec()
    &&& env.source@ == evt.event_source_spec()
    &&& env.cloud_events_version@ == "1.0"@
    &&& env.content_type@ == "application/json"@
}

/// Round trip through an envelope: the payload of an envelope wrapping
/// `evt` serializes to a JSON text that parses back to an event equal to
/// `evt` in all fields.
pub proof fn lemma_envelope_payload_round_trip<E: Event>(env: CloudEvent<E>, evt: E)
    requires
        envelopes_event(env, evt),
    ensures
        E::from_data_json_spec(env.data.data_json_spec()) == Some(evt),
{
    env.data.lemma_data_json_round_trip();
}

impl<E: Event> Clone for CloudEvent<E> {
    /// An envelope clone is equal to the original in every field.
    fn clone(&self) -> (r: Self)
        ensures
            r == *self,
    {
        CloudEvent {
            cloud_events_version: self.cloud_events_version.clone(),
            event_type: self.event_type.clone(),
            event_type_version: self.event_type_version.clone(),
            source: self.source.clone(),
            event_id: self.event_id.clone(),
            event_time: self.event_time,
            content_type: self.content_type.clone(),
            data: self.data.dup(),
        }
    }
}

/// Relies on `uuid::Uuid::new_v4` and its hyphenated formatter: a fresh
/// random 128-bit identifier rendered as a 36-character UUID string.
/// Nothing is claimed of freshness: the store checks ids against its log
/// itself. The call aborts the process if the operating system's random
/// number source fails, an environmental condition no contract can exclude.
#[verifier::external_body]
fn fresh_event_id() -> (r: String)
    ensures
        r@.len() == 36,
{
    uuid::Uuid::new_v4().hyphenated().to_string()
}

/// Relies on `chrono::Utc::now` and `DateTime::timestamp_nanos_opt`: the
/// current time as nanoseconds since the Unix epoch, or `None` when it falls
/// outside the range an `i64` can carry. The call aborts the process if the
/// host clock reads before the Unix epoch, an environmental condition no
/// contract can exclude.
#[verifier::external_body]
fn now_timestamp_nanos() -> (r: Option<i64>) {
    chrono::Utc::now().timestamp_nanos_opt()
}

impl<E: Event> CloudEvent<E> {
    /// Wraps `evt` into an envelope with the given id and timestamp; all
    /// other metadata is taken from the event itself.
    pub fn new_envelope(evt: E, event_id: String, event_time: i64) -> (r: CloudEvent<E>)
        ensures
            envelopes_event(r, evt),
            r.event_id == event_id,
            r.event_time == event_time,
    {
        let event_type = evt.event_type().to_owned();
        let event_type_version = evt.event_type_version().to_owned();
        let source = evt.event_source().to_owned();
        CloudEvent {
            cloud_events_version: String::from_str("1.0"),
            event_type,
            event_type_version,
            source,
            event_id,
            event_time,
            content_type: String::from_str("application/json"),
            data: evt,
        }
    }

    /// Wraps `evt` into an envelope, assigning a fresh unique id and the
    /// current time. Fails (as a store failure) only when the system clock
    /// is outside the representable range.
    pub fn from_event(evt: E) -> (r: Result<CloudEvent<E>, Error>)
        ensures
            r matches Ok(env) ==> envelopes_event(env, evt) && env.event_id@.len() == 36,
            r matches Err(e) ==> e.kind is StoreFailure,
    {
        let event_id = fresh_event_id();
        match now_timestamp_nanos() {
            Some(event_time) => Ok(Self::new_envelope(evt, event_id, event_time)),
            None => Err(
                Error {
                    kind: Kind::StoreFailure(String::from_str("system time out of range")),
                },
            ),
        }
    }
}

} // verus!
