//! In-memory event store.
//!
//! An implementation of the event store trait over a simple in-process log:
//! an ordered sequence of envelopes, append-only. Appends push onto the log;
//! queries filter it with a linear scan, in original append order. There is
//! no persistence across process restarts.

use vstd::prelude::*;
use vstd::seq_lib::*;

use crate::Error;
use crate::Event;
use crate::Kind;
use crate::cloudevents::CloudEvent;
use crate::cloudevents::envelopes_event;
use crate::eventstore::EventStore;

verus! {

/// A simple in-process implementation of the event store trait.
///
/// Appends and queries go through an exclusive borrow, so all access to the
/// log is serialized; to share one store across threads, wrap it in a
/// mutual-exclusion lock and perform each operation while holding the lock.
pub struct MemoryEventStore<E> {
    evts: Vec<CloudEvent<E>>,
}

/// No two envelopes of the log share an id.
pub open spec fn ids_distinct<E>(s: Seq<CloudEvent<E>>) -> bool {
    forall|i: int, j: int| 0 <= i < j < s.len() ==> s[i].event_id@ != s[j].event_id@
}

/// The envelopes of `s` whose `event_type` is exactly `t`, in original order.
pub open spec fn of_type<E>(s: Seq<CloudEvent<E>>, t: Seq<char>) -> Seq<CloudEvent<E>> {
    s.filter(|env: CloudEvent<E>| env.event_type@ == t)
}

/// The envelopes of `s` whose `event_type` is exactly `t` and whose
/// timestamp is at least `start`, in original order.
pub open spec fn of_type_from<E>(s: Seq<CloudEvent<E>>, t: Seq<char>, start: i64) -> Seq<
    CloudEvent<E>,
> {
    s.filter(|env: CloudEvent<E>| env.event_type@ == t && env.event_time >= start)
}

/// The envelopes of `s` whose `event_type` is exactly `t` and whose
/// timestamp lies between `start` and `end`, both ends inclusive, in
/// original order.
pub open spec fn of_type_range<E>(s: Seq<CloudEvent<E>>, t: Seq<char>, start: i64, end: i64) -> Seq<
    CloudEvent<E>,
> {
    s.filter(
        |env: CloudEvent<E>| env.event_type@ == t && env.event_time >= start && env.event_time
            <= end,
    )
}

impl<E: Event> MemoryEventStore<E> {
    /// The ordered sequence of envelopes persisted so far.
    pub closed spec fn log(&self) -> Seq<CloudEvent<E>> {
        self.evts@
    }

    /// Creates a new in-memory event store with an empty log.
    pub fn new() -> (r: MemoryEventStore<E>)
        ensures
            r.log() == Seq::<CloudEvent<E>>::empty(),
    {
        MemoryEventStore { evts: Vec::new() }
    }

    /// Whether some envelope of the log already carries `event_id`.
    pub fn contains_id(&self, event_id: &str) -> (r: bool)
        ensures
            r == exists|k: int|
                0 <= k < self.log().len() && (#[trigger] self.log()[k]).event_id@ == event_id@,
    {
        let needle = event_id.to_owned();
        let mut i: usize = 0;
        while i < self.evts.len()
            invariant
                i <= self.log().len(),
                needle@ == event_id@,
                forall|k: int|
                    0 <= k < i as int ==> (#[trigger] self.log()[k]).event_id@ != event_id@,
            decreases self.log().len() - i,
        {
            if self.evts[i].event_id.eq(&needle) {
                return true;
            }
            i = i + 1;
        }
        false
    }

    /// The deterministic core of `append`: wraps `evt` with the given id and
    /// timestamp and pushes the envelope onto the log. Succeeds if and only
    /// if no envelope of the log already carries `event_id`; on failure the
    /// log is unchanged, so the caller may safely retry with a fresh id.
    pub fn append_with_metadata(&mut self, evt: E, event_id: String, event_time: i64) -> (r: Result<
        CloudEvent<E>,
        Error,
    >)
        ensures
            r is Ok <==> !(exists|k: int|
                0 <= k < old(self).log().len() && (#[trigger] old(self).log()[k]).event_id@
                    == event_id@),
            r matches Ok(env) ==> {
                &&& final(self).log() == old(self).log().push(env)
                &&& envelopes_event(env, evt)
                &&& env.event_id == event_id
                &&& env.event_time == event_time
            },
            r matches Err(e) ==> final(self).log() == old(self).log() && e.kind is StoreFailure,
            ids_distinct(old(self).log()) ==> ids_distinct(final(self).log()),
    {
        if self.contains_id(event_id.as_str()) {
            return Err(
                Error {
                    kind: Kind::StoreFailure("duplicate event id".to_owned()),
                },
            );
        }
        let env = CloudEvent::new_envelope(evt, event_id, event_time);
        let copy = env.clone();
        self.evts.push(copy);
        proof {
            assert(self.log() =~= old(self).log().push(env));
        }
        Ok(env)
    }

    /// All persisted envelopes whose `event_type` exactly matches, in
    /// original append order. Always succeeds.
    pub fn get_all(&self, event_type: &str) -> (r: Result<Vec<CloudEvent<E>>, Error>)
        ensures
            r matches Ok(v) && v@ == of_type(self.log(), event_type@),
    {
        let needle = event_type.to_owned();
        let mut out: Vec<CloudEvent<E>> = Vec::new();
        let mut i: usize = 0;
        while i < self.evts.len()
            invariant
                i <= self.log().len(),
                needle@ == event_type@,
                out@ == of_type(self.log().take(i as int), event_type@),
            decreases self.log().len() - i,
        {
            proof {
                lemma_take_filter_step(
                    self.log(),
                    |env: CloudEvent<E>| env.event_type@ == event_type@,
                    i as int,
                );
            }
            if self.evts[i].event_type.eq(&needle) {
                let copy = self.evts[i].clone();
                out.push(copy);
            }
            i = i + 1;
        }
        proof {
            assert(self.log().take(i as int) =~= self.log());
        }
        Ok(out)
    }

    /// All persisted envelopes of the type whose timestamp is at least
    /// `start`, in original append order. Always succeeds.
    pub fn get_from(&self, event_type: &str, start: i64) -> (r: Result<Vec<CloudEvent<E>>, Error>)
        ensures
            r matches Ok(v) && v@ == of_type_from(self.log(), event_type@, start),
    {
        let needle = event_type.to_owned();
        let mut out: Vec<CloudEvent<E>> = Vec::new();
        let mut i: usize = 0;
        while i < self.evts.len()
            invariant
                i <= self.log().len(),
                needle@ == event_type@,
                out@ == of_type_from(self.log().take(i as int), event_type@, start),
            decreases self.log().len() - i,
        {
            proof {
                lemma_take_filter_step(
                    self.log(),
                    |env: CloudEvent<E>| env.event_type@ == event_type@ && env.event_time >= start,
                    i as int,
                );
            }
            if self.evts[i].event_type.eq(&needle) && self.evts[i].event_time >= start {
                let copy = self.evts[i].clone();
                out.push(copy);
            }
            i = i + 1;
        }
        proof {
            assert(self.log().take(i as int) =~= self.log());
        }
        Ok(out)
    }

    /// All persisted envelopes of the type whose timestamp lies between
    /// `start` and `end`, both ends inclusive, in original append order.
    /// Always succeeds.
    pub fn get_range(&self, event_type: &str, start: i64, end: i64) -> (r: Result<
        Vec<CloudEvent<E>>,
        Error,
    >)
        ensures
            r matches Ok(v) && v@ == of_type_range(self.log(), event_type@, start, end),
    {
        let needle = event_type.to_owned();
        let mut out: Vec<CloudEvent<E>> = Vec::new();
        let mut i: usize = 0;
        while i < self.evts.len()
            invariant
                i <= self.log().len(),
                needle@ == event_type@,
                out@ == of_type_range(self.log().take(i as int), event_type@, start, end),
            decreases self.log().len() - i,
        {
            proof {
                lemma_take_filter_step(
                    self.log(),
                    |env: CloudEvent<E>| env.event_type@ == event_type@ && env.event_time >= start
                        && env.event_time <= end,
                    i as int,
                );
            }
            if self.evts[i].event_type.eq(&needle) && self.evts[i].event_time >= start
                && self.evts[i].event_time <= end {
                let copy = self.evts[i].clone();
                out.push(copy);
            }
            i = i + 1;
        }
        proof {
            assert(self.log().take(i as int) =~= self.log());
        }
        Ok(out)
    }
}

/// No write is lost to a matching query: when every envelope of the log has
/// the queried type, the query returns the whole log, entry for entry.
pub proof fn lemma_of_type_complete<E>(s: Seq<CloudEvent<E>>, t: Seq<char>)
    requires
        forall|k: int| 0 <= k < s.len() ==> (#[trigger] s[k]).event_type@ == t,
    ensures
        of_type(s, t) == s,
    decreases s.len(),
{
    reveal(Seq::filter);
    if s.len() > 0 {
        lemma_of_type_complete(s.drop_last(), t);
        assert(s.drop_last().push(s.last()) =~= s);
        assert(of_type(s, t) =~= s);
    } else {
        assert(of_type(s, t) =~= s);
    }
}

/// Filtering one more element: the filter of `s.take(i + 1)` is the filter
/// of `s.take(i)`, extended with `s[i]` exactly when the predicate holds.
proof fn lemma_take_filter_step<A>(s: Seq<A>, pred: spec_fn(A) -> bool, i: int)
    requires
        0 <= i < s.len(),
    ensures
        pred(s[i]) ==> s.take(i + 1).filter(pred) == s.take(i).filter(pred).push(s[i]),
        !pred(s[i]) ==> s.take(i + 1).filter(pred) == s.take(i).filter(pred),
{
    let single = seq![s[i]];
    assert(s.take(i + 1) =~= s.take(i) + single);
    Seq::<A>::filter_distributes_over_add(s.take(i), single, pred);
    reveal_with_fuel(Seq::filter, 2);
    assert(single.drop_last() =~= Seq::<A>::empty());
    assert(single.last() == s[i]);
    if pred(s[i]) {
        assert(single.filter(pred) =~= single);
        assert(s.take(i).filter(pred) + single =~= s.take(i).filter(pred).push(s[i]));
    } else {
        assert(single.filter(pred) =~= Seq::<A>::empty());
        assert(s.take(i).filter(pred) + single.filter(pred) =~= s.take(i).filter(pred));
    }
}

impl<E: Event> EventStore<E> for MemoryEventStore<E> {
    /// Appends an event to the in-memory store: wraps it into an envelope
    /// with a fresh id and the current time, pushes the envelope onto the
    /// log, and returns it. On failure the log is unchanged, and distinct
    /// ids stay distinct either way.
    fn append(&mut self, evt: E, _stream: &str) -> (r: Result<CloudEvent<E>, Error>)
        ensures
            r matches Ok(env) ==> final(self).log() == old(self).log().push(env),
            r is Err ==> final(self).log() == old(self).log(),
            ids_distinct(old(self).log()) ==> ids_distinct(final(self).log()),
    {
        match CloudEvent::from_event(evt) {
            Ok(env) => {
                let CloudEvent {
                    cloud_events_version: _,
                    event_type: _,
                    event_type_version: _,
                    source: _,
                    event_id,
                    event_time,
                    content_type: _,
                    data,
                } = env;
                self.append_with_metadata(data, event_id, event_time)
            },
            Err(e) => Err(e),
        }
    }
}

} // verus!
