//! An event sourcing library.
//!
//! Commands are decided against aggregate state, yielding immutable events;
//! state is derived by folding events; events are wrapped in envelopes and
//! persisted in an append-only store.
//!
//! The fundamental workflow: **commands** are applied to **aggregates**, which
//! emit one or more events. An aggregate's business logic is also responsible
//! for returning a new state from a previous state combined with a new event:
//! `f(state1, event) = state2`. State is never mutated in place, so aggregate
//! logic stays pure and can be tested (and here: verified) in isolation from
//! how events are received or persisted.

use vstd::prelude::*;

pub mod bank;
pub mod cloudevents;
pub mod decimal;
pub mod eventstore;
pub mod prelude;

use crate::cloudevents::CloudEvent;
use crate::cloudevents::envelopes_event;
use crate::eventstore::EventStore;

verus! {

/// An event sourcing error.
#[derive(Debug)]
pub struct Error {
    pub kind: Kind,
}

/// Indicates the kind of event sourcing error that occurred.
///
/// `ApplicationFailure` is raised only when applying an event to a state,
/// `CommandFailure` only when deciding a command, and `StoreFailure` only
/// when persisting an envelope.
#[derive(Debug)]
pub enum Kind {
    ApplicationFailure(String),
    CommandFailure(String),
    StoreFailure(String),
}

impl Error {
    /// The reason string carried by this error, independent of the kind.
    pub open spec fn reason(&self) -> Seq<char> {
        match self.kind {
            Kind::ApplicationFailure(s) => s@,
            Kind::CommandFailure(s) => s@,
            Kind::StoreFailure(s) => s@,
        }
    }

    /// The reason carried by this error, whatever its kind.
    pub fn message(&self) -> (r: &str)
        ensures
            r@ == self.reason(),
    {
        match &self.kind {
            Kind::ApplicationFailure(s) => s.as_str(),
            Kind::CommandFailure(s) => s.as_str(),
            Kind::StoreFailure(s) => s.as_str(),
        }
    }
}

/// All events must expose some basic metadata (a stable type name, the type's
/// version, and a source URI), and must convert to and from a structured JSON
/// payload without loss, so that they can be stored and transported.
pub trait Event: Sized {
    /// The stable type name of this event, conventionally
    /// `"<aggregate>.<variant>"` lower-cased.
    spec fn event_type_spec(&self) -> Seq<char>;

    /// The version string of the event type, fixed per domain.
    spec fn event_type_version_spec(&self) -> Seq<char>;

    /// A URI identifying the producing domain.
    spec fn event_source_spec(&self) -> Seq<char>;

    /// The JSON text of this event's payload.
    spec fn data_json_spec(&self) -> Seq<char>;

    /// The event, if any, whose payload a JSON text is.
    spec fn from_data_json_spec(s: Seq<char>) -> Option<Self>;

    fn event_type(&self) -> (r: &str)
        ensures
            r@ == self.event_type_spec(),
    ;

    fn event_type_version(&self) -> (r: &str)
        ensures
            r@ == self.event_type_version_spec(),
    ;

    fn event_source(&self) -> (r: &str)
        ensures
            r@ == self.event_source_spec(),
    ;

    /// Serializes this event's payload to JSON text.
    fn data_json(&self) -> (r: String)
        ensures
            r@ == self.data_json_spec(),
    ;

    /// Parses an event back out of JSON payload text; `None` exactly when the
    /// text is not the payload of any event.
    fn from_data_json(s: &str) -> (r: Option<Self>)
        ensures
            r == Self::from_data_json_spec(s@),
    ;

    /// An explicit copy, guaranteed equal to the original.
    fn dup(&self) -> (r: Self)
        ensures
            r == *self,
    ;

    /// Round trip: an event's serialized payload parses back to that event,
    /// equal in all fields.
    proof fn lemma_data_json_round_trip(&self)
        ensures
            Self::from_data_json_spec(self.data_json_spec()) == Some(*self),
    ;
}

/// Aggregate state only requires that it expose the generation number: a
/// sequential version counter. When a previous state is combined with an
/// event to produce a new state, the new state's generation is one higher.
pub trait AggregateState: Sized {
    spec fn generation_spec(&self) -> u64;

    fn generation(&self) -> (r: u64)
        ensures
            r == self.generation_spec(),
    ;

    /// An explicit copy, guaranteed equal to the original.
    fn dup(&self) -> (r: Self)
        ensures
            r == *self,
    ;
}

/// An aggregate is where the business logic of an event sourcing system
/// lives. It has two roles: applying events to state, producing new state,
/// and handling commands, producing a vector of outbound events. Both are
/// stateless and pure, which is what makes them checkable: the spec-level
/// transition functions below pin down exactly what the executable ones do,
/// with a failure represented by its reason text.
pub trait Aggregate: Sized {
    type Event: Event;
    type Command;
    type State: AggregateState;

    /// The state transition for one event: the new state, or the reason the
    /// event is inapplicable to the given state.
    spec fn apply_event_spec(state: Self::State, evt: Self::Event) -> Result<
        Self::State,
        Seq<char>,
    >;

    /// The decision for one command: the ordered events it gives rise to, or
    /// the reason the command is invalid against the given state.
    spec fn handle_command_spec(state: Self::State, cmd: Self::Command) -> Result<
        Seq<Self::Event>,
        Seq<char>,
    >;

    /// Applying exactly one event to a state of generation `g` yields a
    /// state of generation `g + 1`; the generation is never decremented or
    /// skipped.
    proof fn lemma_apply_event_generation(state: Self::State, evt: Self::Event)
        ensures
            Self::apply_event_spec(state, evt) matches Ok(s2) ==> s2.generation_spec()
                == state.generation_spec() + 1,
    ;

    /// Applies one event to a state, producing the new state, or an
    /// `ApplicationFailure` carrying the reason the event was inapplicable.
    fn apply_event(state: &Self::State, evt: &Self::Event) -> (r: Result<Self::State, Error>)
        ensures
            r matches Ok(s2) ==> Self::apply_event_spec(*state, *evt) matches Ok(s3) && s2 == s3,
            r matches Err(e) ==> Self::apply_event_spec(*state, *evt) matches Err(msg) && e.kind
                matches Kind::ApplicationFailure(t) && t@ == msg,
    ;

    /// Decides one command against a state, producing the resulting events,
    /// or a `CommandFailure` carrying the reason the command was invalid.
    fn handle_command(state: &Self::State, cmd: &Self::Command) -> (r: Result<
        Vec<Self::Event>,
        Error,
    >)
        ensures
            r matches Ok(v) ==> Self::handle_command_spec(*state, *cmd) matches Ok(s) && v@ == s,
            r matches Err(e) ==> Self::handle_command_spec(*state, *cmd) matches Err(msg) && e.kind
                matches Kind::CommandFailure(t) && t@ == msg,
    ;

    /// Applies a sequence of events as a strict left-to-right fold of
    /// `apply_event`, starting from `state`, short-circuiting at the first
    /// failure: the first failing event's error is propagated, later events
    /// are not applied, and no partial application is silently ignored.
    fn apply_all(state: &Self::State, evts: &[Self::Event]) -> (r: Result<Self::State, Error>)
        ensures
            r matches Ok(s2) ==> fold_events(
                (|s: Self::State, e: Self::Event| Self::apply_event_spec(s, e)),
                *state,
                evts@,
            ) matches Ok(s3) && s2 == s3,
            r matches Err(e) ==> fold_events(
                (|s: Self::State, e: Self::Event| Self::apply_event_spec(s, e)),
                *state,
                evts@,
            ) matches Err(msg) && e.kind matches Kind::ApplicationFailure(t) && t@ == msg,
    {
        let ghost step = |s: Self::State, e: Self::Event| Self::apply_event_spec(s, e);
        let mut cur = state.dup();
        let mut i: usize = 0;
        proof {
            assert(evts@.skip(0) =~= evts@);
        }
        while i < evts.len()
            invariant
                i <= evts@.len(),
                step == (|s: Self::State, e: Self::Event| Self::apply_event_spec(s, e)),
                fold_events(step, *state, evts@) == fold_events(step, cur, evts@.skip(i as int)),
            decreases evts@.len() - i,
        {
            proof {
                assert(evts@.skip(i as int).len() > 0);
                assert(evts@.skip(i as int)[0] == evts@[i as int]);
                assert(evts@.skip(i as int).skip(1) =~= evts@.skip(i as int + 1));
            }
            match Self::apply_event(&cur, &evts[i]) {
                Ok(s2) => {
                    proof {
                        assert(step(cur, evts@[i as int]) == Self::apply_event_spec(
                            cur,
                            evts@[i as int],
                        ));
                        assert(fold_events(step, cur, evts@.skip(i as int)) == fold_events(
                            step,
                            s2,
                            evts@.skip(i as int + 1),
                        ));
                    }
                    cur = s2;
                    i = i + 1;
                },
                Err(e) => {
                    proof {
                        assert(step(cur, evts@[i as int]) == Self::apply_event_spec(
                            cur,
                            evts@[i as int],
                        ));
                    }
                    return Err(e);
                },
            }
        }
        proof {
            assert(evts@.skip(i as int) =~= Seq::<Self::Event>::empty());
        }
        Ok(cur)
    }
}

/// The strict left-to-right fold of a transition function over a sequence of
/// events, starting from `state`. It stops at the first failing event and
/// propagates that failure's reason; later events are not applied.
pub open spec fn fold_events<St, Ev>(
    step: spec_fn(St, Ev) -> Result<St, Seq<char>>,
    state: St,
    evts: Seq<Ev>,
) -> Result<St, Seq<char>>
    decreases evts.len(),
{
    if evts.len() == 0 {
        Ok(state)
    } else {
        match step(state, evts[0]) {
            Ok(s2) => fold_events(step, s2, evts.skip(1)),
            Err(msg) => Err(msg),
        }
    }
}

/// Folding `n` events over a state of generation `g` yields, on success, a
/// state of generation `g + n`, provided each single successful step
/// increments the generation by exactly one.
pub proof fn lemma_fold_events_generation<St: AggregateState, Ev>(
    step: spec_fn(St, Ev) -> Result<St, Seq<char>>,
    state: St,
    evts: Seq<Ev>,
)
    requires
        forall|s: St, e: Ev| #[trigger] step(s, e) matches Ok(s2) ==> s2.generation_spec()
            == s.generation_spec() + 1,
    ensures
        fold_events(step, state, evts) matches Ok(s2) ==> s2.generation_spec()
            == state.generation_spec() + evts.len(),
    decreases evts.len(),
{
    if evts.len() > 0 {
        match step(state, evts[0]) {
            Ok(s2) => {
                lemma_fold_events_generation(step, s2, evts.skip(1));
            },
            Err(_) => {},
        }
    }
}

/// The generation law for an aggregate's derived fold: applying `n` events
/// through `apply_event_spec` yields, on success, a state whose generation
/// grew by exactly `n`.
pub proof fn lemma_apply_all_generation<A: Aggregate>(state: A::State, evts: Seq<A::Event>)
    ensures
        fold_events(
            (|s: A::State, e: A::Event| A::apply_event_spec(s, e)),
            state,
            evts,
        ) matches Ok(s2) ==> s2.generation_spec() == state.generation_spec() + evts.len(),
{
    let step = |s: A::State, e: A::Event| A::apply_event_spec(s, e);
    assert forall|s: A::State, e: A::Event|
        #[trigger] step(s, e) matches Ok(s2) ==> s2.generation_spec() == s.generation_spec()
            + 1 by {
        A::lemma_apply_event_generation(s, e);
    }
    lemma_fold_events_generation(step, state, evts);
}

/// A dispatcher is pipeline glue: it runs a command through the aggregate's
/// decision function and immediately appends each resulting event to a store,
/// for a given stream name, reporting one result per event. If the decision
/// fails, the single failure is reported and the store is not touched. If it
/// succeeds, every event is appended independently: a failure appending one
/// event does not prevent attempting the rest, so the caller must inspect
/// the full result vector.
pub trait Dispatcher: Sized {
    type Command;
    type Event: Event;
    type State: AggregateState;
    type Aggregate: Aggregate<Event = Self::Event, Command = Self::Command, State = Self::State>;

    fn dispatch<S: EventStore<Self::Event>>(
        state: &Self::State,
        cmd: &Self::Command,
        store: &mut S,
        stream: &str,
    ) -> (r: Vec<Result<CloudEvent<Self::Event>, Error>>)
        ensures
            Self::Aggregate::handle_command_spec(*state, *cmd) matches Err(msg) ==> r@.len() == 1
                && (r@[0] matches Err(e) && e.kind matches Kind::CommandFailure(t) && t@ == msg)
                && *final(store) == *old(store),
            Self::Aggregate::handle_command_spec(*state, *cmd) matches Ok(evts) ==> r@.len()
                == evts.len() && (forall|j: int|
                0 <= j < r@.len() ==> dispatched_event(#[trigger] r@[j], evts[j])),
    {
        match Self::Aggregate::handle_command(state, cmd) {
            Err(e) => {
                let mut out: Vec<Result<CloudEvent<Self::Event>, Error>> = Vec::new();
                out.push(Err(e));
                out
            },
            Ok(evts) => {
                let mut out: Vec<Result<CloudEvent<Self::Event>, Error>> = Vec::new();
                let mut i: usize = 0;
                while i < evts.len()
                    invariant
                        i <= evts@.len(),
                        out@.len() == i as int,
                        Self::Aggregate::handle_command_spec(*state, *cmd) matches Ok(es) && es
                            == evts@,
                        forall|j: int|
                            0 <= j < i as int ==> dispatched_event(#[trigger] out@[j], evts@[j]),
                    decreases evts@.len() - i,
                {
                    let evt = evts[i].dup();
                    let res = store.append(evt, stream);
                    out.push(res);
                    i = i + 1;
                }
                out
            },
        }
    }
}

/// What the dispatcher promises of each per-event result: a success carries
/// an envelope wrapping exactly that event, and a failure is a store failure.
pub open spec fn dispatched_event<E: Event>(r: Result<CloudEvent<E>, Error>, evt: E) -> bool {
    match r {
        Ok(env) => envelopes_event(env, evt),
        Err(e) => e.kind is StoreFailure,
    }
}

} // verus!
