//! System event bus: structured events, topic subscriptions and ordered dispatch.
use crate::clock::clock_now;
use crate::text::{decimal, join2, lemma_decimal_injective, owned, u64_to_decimal};
use std::collections::BTreeMap;
use std::time::SystemTime;
use vstd::prelude::*;

verus! {

/// A unique identifier for a subscription on the event bus.
#[derive(Clone, Copy, Debug, PartialEq, Eq, PartialOrd, Ord, Hash)]
pub struct SubscriptionId(pub u64);

/// Configuration of the event bus (it has no parameters yet).
#[derive(Clone, Copy, Debug, Default, PartialEq, Eq)]
pub struct EventBusConfig;

/// Errors produced by the event bus.
#[derive(Clone, Debug, PartialEq, Eq)]
pub enum EventBusError {
    /// A subscriber handler failed during event dispatch.
    Handler { subscription_id: SubscriptionId, message: String },
    /// Internal lock acquisition failed.
    LockError { message: String },
}

/// The text of an [`EventBusError`].
pub open spec fn event_bus_error_text(e: EventBusError) -> Seq<char> {
    match e {
        EventBusError::Handler { subscription_id, message } => "Handler error (subscription SubscriptionId("@
            + decimal(subscription_id.0 as nat) + "))"@ + ": "@ + message@,
        EventBusError::LockError { message } => "Lock error: "@ + message@,
    }
}

impl EventBusError {
    /// Renders the error as text.
    pub fn to_string(&self) -> (s: String)
        ensures
            s@ == event_bus_error_text(*self),
    {
        match self {
            EventBusError::Handler { subscription_id, message } => {
                let n = u64_to_decimal(subscription_id.0);
                let mut s = join2("Handler error (subscription SubscriptionId(", n.as_str());
                s.append("))");
                s.append(": ");
                s.append(message.as_str());
                s
            },
            EventBusError::LockError { message } => join2("Lock error: ", message.as_str()),
        }
    }
}

/// A structured event carrying topic metadata and attributes.
#[derive(Clone, Debug, PartialEq, Eq)]
pub struct Event {
    id: String,
    event_type: String,
    source: String,
    timestamp: SystemTime,
    payload: BTreeMap<String, String>,
}

/// The identifier of event number `n`: `evt_` followed by `n` in decimal.
pub open spec fn event_id(n: u64) -> Seq<char> {
    "evt_"@ + decimal(n as nat)
}

/// The number that follows `n` in an event sequence (wrapping after `u64::MAX`).
pub open spec fn following(n: u64) -> u64 {
    if n == u64::MAX {
        0
    } else {
        (n + 1) as u64
    }
}

/// The number a numbering offers after announcing on `bus` from `n`: one event is
/// numbered when there is a bus, none without.
pub open spec fn after_notice(bus: Option<&EventBus>, n: u64) -> u64 {
    if bus is Some {
        following(n)
    } else {
        n
    }
}

/// Events with different sequence numbers have different identifiers.
pub proof fn law_event_ids_distinct(m: u64, n: u64)
    requires
        m != n,
    ensures
        event_id(m) != event_id(n),
{
    reveal_strlit("evt_");
    if event_id(m) == event_id(n) {
        assert(event_id(m).skip(4) =~= decimal(m as nat));
        assert(event_id(n).skip(4) =~= decimal(n as nat));
        lemma_decimal_injective(m as nat, n as nat);
    }
}

/// The event a numbering creates next has a different identifier from the one it
/// has just created.
pub proof fn law_successive_events_distinct(k: u64)
    ensures
        event_id(k) != event_id(following(k)),
{
    law_event_ids_distinct(k, following(k));
}

/// The numbering of events: it hands out 1, 2, 3, ... in turn, so the events it
/// numbers get distinct identifiers.
#[derive(Debug)]
pub struct EventIds {
    next: u64,
}

impl EventIds {
    /// The number the next event receives.
    pub closed spec fn upcoming(&self) -> u64 {
        self.next
    }

    /// A numbering that starts at 1.
    pub fn new() -> (ids: EventIds)
        ensures
            ids.upcoming() == 1,
    {
        EventIds { next: 1 }
    }

    /// Hands out the next number.
    pub fn take(&mut self) -> (n: u64)
        ensures
            n == old(self).upcoming(),
            final(self).upcoming() == following(n),
    {
        let n = self.next;
        self.next = if n == u64::MAX {
            0
        } else {
            n + 1
        };
        n
    }
}

impl Event {
    /// The event's identifier.
    pub closed spec fn id_view(&self) -> Seq<char> {
        self.id@
    }

    /// The event's type (topic).
    pub closed spec fn type_view(&self) -> Seq<char> {
        self.event_type@
    }

    /// The component that published the event.
    pub closed spec fn source_view(&self) -> Seq<char> {
        self.source@
    }

    /// The creation time of the event.
    pub closed spec fn time_view(&self) -> SystemTime {
        self.timestamp
    }

    /// The structured payload of the event.
    pub closed spec fn payload_view(&self) -> BTreeMap<String, String> {
        self.payload
    }

    /// Creates event number `seq` of type `event_type` from `source`, stamped with
    /// the current system time, with an empty payload and the identifier
    /// `evt_<seq>`.
    pub fn with_sequence(event_type: &str, source: &str, seq: u64) -> (e: Event)
        ensures
            e.type_view() == event_type@,
            e.source_view() == source@,
            e.payload_view()@ == Map::<String, String>::empty(),
            e.id_view() == "evt_"@ + decimal(seq as nat),
    {
        let digits = u64_to_decimal(seq);
        let id = join2("evt_", digits.as_str());
        Event {
            id,
            event_type: owned(event_type),
            source: owned(source),
            timestamp: clock_now(),
            payload: BTreeMap::new(),
        }
    }

    /// Creates an event of type `event_type` from `source`, stamped with the current
    /// system time, with an empty payload; its identifier is `evt_<n>` for the next
    /// number `n` of `ids`.
    pub fn new(event_type: &str, source: &str, ids: &mut EventIds) -> (e: Event)
        ensures
            e.type_view() == event_type@,
            e.source_view() == source@,
            e.payload_view()@ == Map::<String, String>::empty(),
            e.id_view() == event_id(old(ids).upcoming()),
            final(ids).upcoming() == following(old(ids).upcoming()),
    {
        let seq = ids.take();
        Self::with_sequence(event_type, source, seq)
    }

    /// Replaces the payload of the event, keeping everything else.
    pub fn with_payload(self, payload: BTreeMap<String, String>) -> (e: Event)
        ensures
            e.payload_view() == payload,
            e.id_view() == self.id_view(),
            e.type_view() == self.type_view(),
            e.source_view() == self.source_view(),
            e.time_view() == self.time_view(),
    {
        Event { payload, ..self }
    }

    /// Returns the identifier of the event.
    pub fn id(&self) -> (r: &str)
        ensures
            r@ == self.id_view(),
    {
        self.id.as_str()
    }

    /// Returns the event type (topic).
    pub fn event_type(&self) -> (r: &str)
        ensures
            r@ == self.type_view(),
    {
        self.event_type.as_str()
    }

    /// Returns the component that published the event.
    pub fn source(&self) -> (r: &str)
        ensures
            r@ == self.source_view(),
    {
        self.source.as_str()
    }

    /// Returns the time at which the event was created.
    pub fn timestamp(&self) -> (r: SystemTime)
        ensures
            r == self.time_view(),
    {
        self.timestamp
    }

    /// Returns the structured payload of the event.
    pub fn payload(&self) -> (r: &BTreeMap<String, String>)
        ensures
            *r == self.payload_view(),
    {
        &self.payload
    }
}

/// Handler for events delivered by the bus. Implemented by subscribers; what a
/// handler answers is its own affair, so the bus states its behaviour for every
/// answer a handler may give.
pub trait EventHandler: Send + Sync {
    /// Whether this handler may answer `r` when it handles `event`. An
    /// implementation may state what it answers; by default it states nothing.
    closed spec fn answers(&self, event: Event, r: Result<(), EventBusError>) -> bool {
        true
    }

    /// Handles an incoming event.
    fn handle(&self, event: &Event) -> (r: Result<(), EventBusError>)
        ensures
            self.answers(*event, r),
    ;
}

#[verifier::external_type_specification]
#[verifier::external_body]
pub struct ExFormatter<'a>(core::fmt::Formatter<'a>);

#[verifier::external_type_specification]
#[verifier::external_body]
pub struct ExFmtError(core::fmt::Error);

/// Handlers are opaque to the bus; their debug rendering only names them.
impl core::fmt::Debug for dyn EventHandler {
    /// Writes the fixed text `EventHandler` through `Formatter::write_str`.
    #[verifier::external_body]
    fn fmt(&self, f: &mut core::fmt::Formatter<'_>) -> core::fmt::Result {
        f.write_str("EventHandler")
    }
}

/// A subscription: its identifier, its event type and its handler. It is
/// generic in the handler so that the handler it stores is the one given.
#[derive(Debug)]
struct Subscription<H> {
    id: SubscriptionId,
    event_type: String,
    handler: H,
}

impl<H> Subscription<H> {
    fn new(id: SubscriptionId, event_type: &str, handler: H) -> (s: Subscription<H>)
        ensures
            s.id == id,
            s.event_type@ == event_type@,
            s.handler == handler,
    {
        Subscription { id, event_type: owned(event_type), handler }
    }
}

/// How a dispatch to `n` handlers, which answered `answers` in order, ends in
/// `r`: every answer but the last is `Ok`; a failing last answer stops the
/// dispatch and is returned; otherwise all `n` handlers accepted and `r` is `Ok`.
pub open spec fn settles(
    answers: Seq<Result<(), EventBusError>>,
    n: nat,
    r: Result<(), EventBusError>,
) -> bool {
    &&& answers.len() <= n
    &&& forall|i: int| 0 <= i < answers.len() - 1 ==> #[trigger] answers[i] is Ok
    &&& if answers.len() > 0 && answers.last() is Err {
        r == answers.last()
    } else {
        &&& r is Ok
        &&& answers.len() == n
    }
}

/// The identifiers, in registration order, of the entries subscribed to `t`.
pub open spec fn ids_of_type(subs: Seq<(u64, Seq<char>)>, t: Seq<char>) -> Seq<u64>
    decreases subs.len(),
{
    if subs.len() == 0 {
        Seq::empty()
    } else if subs[0].1 == t {
        seq![subs[0].0] + ids_of_type(subs.drop_first(), t)
    } else {
        ids_of_type(subs.drop_first(), t)
    }
}

/// The handlers, in registration order, of the subscriptions to `t`.
pub open spec fn handlers_of_type(subs: Seq<(u64, Seq<char>, Box<dyn EventHandler>)>, t: Seq<char>) -> Seq<
    Box<dyn EventHandler>,
>
    decreases subs.len(),
{
    if subs.len() == 0 {
        Seq::empty()
    } else if subs[0].1 == t {
        seq![subs[0].2] + handlers_of_type(subs.drop_first(), t)
    } else {
        handlers_of_type(subs.drop_first(), t)
    }
}

/// The (identifier, event type) pairs of subscriptions that also carry their handler.
pub open spec fn keys_of(subs: Seq<(u64, Seq<char>, Box<dyn EventHandler>)>) -> Seq<(u64, Seq<char>)> {
    subs.map_values(|s: (u64, Seq<char>, Box<dyn EventHandler>)| (s.0, s.1))
}

/// There are as many handlers for `t` as identifiers subscribed to `t`.
pub proof fn lemma_handlers_match_ids(subs: Seq<(u64, Seq<char>, Box<dyn EventHandler>)>, t: Seq<char>)
    ensures
        handlers_of_type(subs, t).len() == ids_of_type(keys_of(subs), t).len(),
    decreases subs.len(),
{
    if subs.len() > 0 {
        assert(keys_of(subs).drop_first() =~= keys_of(subs.drop_first()));
        lemma_handlers_match_ids(subs.drop_first(), t);
    }
}

/// How publishing `event` on `bus` ends in `r`: the handlers subscribed to the
/// event's type are called with it in registration order, the `i`-th answering
/// `answers[i]`, and dispatch stops at the first failure as [`settles`] says.
pub open spec fn dispatched(
    bus: &EventBus,
    event: Event,
    answers: Seq<Result<(), EventBusError>>,
    r: Result<(), EventBusError>,
) -> bool {
    let hs = bus.handlers_for(event.type_view());
    &&& settles(answers, bus.listener_count(event.type_view()), r)
    &&& forall|i: int| 0 <= i < answers.len() ==> #[trigger] hs[i].answers(event, answers[i])
}

/// Whether the payload of `e` binds `key` to `value`.
pub open spec fn has_field(e: Event, key: Seq<char>, value: Seq<char>) -> bool {
    exists|k: String| #[trigger] e.payload_view()@.contains_key(k) && k@ == key
        && e.payload_view()@[k]@ == value
}

/// Whether the payload of `e` consists of exactly the (distinct) `fields`.
pub open spec fn carries(e: Event, fields: Seq<(Seq<char>, Seq<char>)>) -> bool {
    &&& e.payload_view()@.dom().finite()
    &&& e.payload_view()@.dom().len() == fields.len()
    &&& forall|i: int| 0 <= i < fields.len() ==> #[trigger] has_field(e, fields[i].0, fields[i].1)
}

/// A payload of one field, `state`, set to `value`.
pub open spec fn state_field(value: Seq<char>) -> Seq<(Seq<char>, Seq<char>)> {
    seq![("state"@, value)]
}

/// A one-field payload `{key: value}` built by one insertion carries that field.
pub proof fn lemma_one_field(e: Event, k: String, v: String)
    requires
        e.payload_view()@ == Map::<String, String>::empty().insert(k, v),
    ensures
        carries(e, seq![(k@, v@)]),
{
    let fs = seq![(k@, v@)];
    assert(e.payload_view()@.dom() =~= Set::<String>::empty().insert(k));
    assert(e.payload_view()@.contains_key(k) && e.payload_view()@[k] == v);
    assert(has_field(e, fs[0].0, fs[0].1));
}

/// A two-field payload built by inserting two different keys carries both fields.
pub proof fn lemma_two_fields(e: Event, k1: String, v1: String, k2: String, v2: String)
    requires
        k1@ != k2@,
        e.payload_view()@ == Map::<String, String>::empty().insert(k1, v1).insert(k2, v2),
    ensures
        carries(e, seq![(k1@, v1@), (k2@, v2@)]),
{
    let fs = seq![(k1@, v1@), (k2@, v2@)];
    assert(k1 != k2);
    assert(e.payload_view()@.dom() =~= Set::<String>::empty().insert(k1).insert(k2));
    assert(e.payload_view()@.contains_key(k1) && e.payload_view()@[k1] == v1);
    assert(e.payload_view()@.contains_key(k2) && e.payload_view()@[k2] == v2);
    assert(has_field(e, fs[0].0, fs[0].1));
    assert(has_field(e, fs[1].0, fs[1].1));
}

/// `BTreeMap::insert` on a map keyed by `String`: `String`'s order is a total order
/// that agrees with equality, so afterwards the map binds `key` to `value` and
/// keeps every other binding.
#[verifier::external_body]
pub(crate) fn insert_field(m: &mut BTreeMap<String, String>, key: String, value: String)
    ensures
        final(m)@ == old(m)@.insert(key, value),
{
    m.insert(key, value);
}

/// Whether publishing, on `bus`, an event of type `topic` from `source` whose
/// payload is `fields` can end in `r`: without a bus nothing is published and `r`
/// is `Ok`; with one, such an event is dispatched to the handlers of `topic` as
/// [`dispatched`] says.
pub open spec fn notice_answers(
    bus: Option<&EventBus>,
    topic: Seq<char>,
    source: Seq<char>,
    fields: Seq<(Seq<char>, Seq<char>)>,
    r: Result<(), EventBusError>,
) -> bool {
    match bus {
        None => r is Ok,
        Some(b) => exists|e: Event, answers: Seq<Result<(), EventBusError>>|
            e.type_view() == topic && e.source_view() == source && carries(e, fields)
                && #[trigger] dispatched(b, e, answers, r),
    }
}

/// Whether an event of type `topic` from `source` whose payload is `fields` was
/// dispatched on `bus` (when there is one), whatever its handlers answered.
pub open spec fn notified(
    bus: Option<&EventBus>,
    topic: Seq<char>,
    source: Seq<char>,
    fields: Seq<(Seq<char>, Seq<char>)>,
) -> bool {
    exists|r: Result<(), EventBusError>| notice_answers(bus, topic, source, fields, r)
}

/// Whether the subscriptions are numbered 1, 2, 3, ... in registration order and
/// `next` is the number after the last.
pub open spec fn numbered_from_one(subs: Seq<(u64, Seq<char>)>, next: u64) -> bool {
    &&& next == subs.len() + 1
    &&& forall|i: int| 0 <= i < subs.len() ==> #[trigger] subs[i].0 == i + 1
}

/// The n-th subscription gets identifier n: a new bus is numbered from one, and a
/// subscription, which takes the next identifier and appends its entry, keeps the
/// numbering; so, from a new bus, the n-th call of `subscribe` returns
/// `SubscriptionId(n)`.
pub proof fn law_nth_subscription(subs: Seq<(u64, Seq<char>)>, next: u64, t: Seq<char>)
    requires
        numbered_from_one(subs, next),
    ensures
        numbered_from_one(Seq::<(u64, Seq<char>)>::empty(), 1),
        next == subs.len() + 1,
        next < u64::MAX ==> numbered_from_one(subs.push((next, t)), (next + 1) as u64),
{
}

/// Whether identifier `id` occurs among the subscriptions.
pub open spec fn has_id(subs: Seq<(u64, Seq<char>)>, id: u64) -> bool {
    exists|i: int| 0 <= i < subs.len() && subs[i].0 == id
}

/// System event bus for publishing events and managing subscribers.
pub struct EventBus {
    config: EventBusConfig,
    subscriptions: Vec<Subscription<Box<dyn EventHandler>>>,
    next_id: u64,
}

/// A bus shows only its configuration; its handlers are opaque.
impl core::fmt::Debug for EventBus {
    /// Writes the configuration through `Formatter::debug_struct`.
    #[verifier::external_body]
    fn fmt(&self, f: &mut core::fmt::Formatter<'_>) -> core::fmt::Result {
        f.debug_struct("EventBus").field("config", &self.config).finish()
    }
}

impl EventBus {
    /// The subscriptions as (identifier, event type) pairs, in registration order.
    pub closed spec fn subscriptions(&self) -> Seq<(u64, Seq<char>)> {
        self.subscriptions@.map_values(|s: Subscription<Box<dyn EventHandler>>| (s.id.0, s.event_type@))
    }

    /// The subscriptions with their handlers, in registration order.
    pub closed spec fn entries(&self) -> Seq<(u64, Seq<char>, Box<dyn EventHandler>)> {
        self.subscriptions@.map_values(
            |s: Subscription<Box<dyn EventHandler>>| (s.id.0, s.event_type@, s.handler),
        )
    }

    /// The handlers subscribed to events of type `t`, in registration order.
    pub open spec fn handlers_for(&self, t: Seq<char>) -> Seq<Box<dyn EventHandler>> {
        handlers_of_type(self.entries(), t)
    }

    /// The entries and the (identifier, type) view agree.
    pub proof fn lemma_entries(&self)
        ensures
            keys_of(self.entries()) == self.subscriptions(),
            self.entries().len() == self.subscriptions().len(),
            forall|t: Seq<char>| #[trigger] self.handlers_for(t).len() == self.listener_count(t),
    {
        assert(keys_of(self.entries()) =~= self.subscriptions());
        assert forall|t: Seq<char>| #[trigger] self.handlers_for(t).len() == self.listener_count(t) by {
            lemma_handlers_match_ids(self.entries(), t);
        }
    }

    /// The identifier the next subscription receives.
    pub closed spec fn next_id(&self) -> u64 {
        self.next_id
    }

    /// How many subscriptions are registered for events of type `t`.
    pub open spec fn listener_count(&self, t: Seq<char>) -> nat {
        ids_of_type(self.subscriptions(), t).len()
    }

    /// Well-formedness: identifiers strictly increase in registration order and stay
    /// below the next identifier to hand out.
    pub closed spec fn wf(&self) -> bool {
        &&& forall|i: int, j: int|
            0 <= i < j < self.subscriptions@.len() ==> #[trigger] self.subscriptions@[i].id.0
                < #[trigger] self.subscriptions@[j].id.0
        &&& forall|i: int|
            0 <= i < self.subscriptions@.len() ==> 1 <= #[trigger] self.subscriptions@[i].id.0
                < self.next_id
        &&& self.next_id >= 1
    }

    /// Subscriptions are kept in registration order with increasing identifiers,
    /// all below the next identifier to hand out.
    pub proof fn law_subscription_order(&self)
        requires
            self.wf(),
        ensures
            forall|i: int, j: int|
                0 <= i < j < self.subscriptions().len() ==> #[trigger] self.subscriptions()[i].0
                    < #[trigger] self.subscriptions()[j].0,
            forall|i: int|
                0 <= i < self.subscriptions().len() ==> #[trigger] self.subscriptions()[i].0
                    < self.next_id(),
    {
        assert forall|i: int, j: int|
            0 <= i < j < self.subscriptions().len() implies #[trigger] self.subscriptions()[i].0
            < #[trigger] self.subscriptions()[j].0 by {
            assert(self.subscriptions@[i].id.0 < self.subscriptions@[j].id.0);
        }
        assert forall|i: int| 0 <= i < self.subscriptions().len() implies #[trigger] self.subscriptions()[i].0
            < self.next_id() by {
            assert(self.subscriptions@[i].id.0 < self.next_id);
        }
    }

    /// Once a subscription is removed its identifier is gone, so removing it
    /// again answers `false`.
    pub proof fn law_unsubscribe_forgets(&self, after: Seq<(u64, Seq<char>)>, i: int)
        requires
            self.wf(),
            0 <= i < self.subscriptions().len(),
            after == self.subscriptions().remove(i),
        ensures
            !has_id(after, self.subscriptions()[i].0),
    {
        self.law_subscription_order();
        let s = self.subscriptions();
        assert forall|k: int| 0 <= k < after.len() implies after[k].0 != s[i].0 by {
            if k < i {
                assert(after[k] == s[k]);
            } else {
                assert(after[k] == s[k + 1]);
            }
        }
    }

    /// Creates an event bus without subscribers.
    pub fn new(config: EventBusConfig) -> (bus: EventBus)
        ensures
            bus.wf(),
            bus.subscriptions() == Seq::<(u64, Seq<char>)>::empty(),
            bus.next_id() == 1,
    {
        let bus = EventBus { config, subscriptions: Vec::new(), next_id: 1 };
        assert(bus.subscriptions() =~= Seq::<(u64, Seq<char>)>::empty());
        bus
    }

    /// Subscribes `handler` to events of type `event_type`. Subscriptions receive
    /// increasing identifiers; handlers run in registration order, so the new one
    /// runs after those already subscribed: the existing entries are kept and the
    /// entry for `handler` is appended.
    pub fn subscribe(&mut self, event_type: &str, handler: Box<dyn EventHandler>) -> (r: Result<
        SubscriptionId,
        EventBusError,
    >)
        requires
            old(self).wf(),
            old(self).next_id() < u64::MAX,
        ensures
            final(self).wf(),
            r == Ok::<SubscriptionId, EventBusError>(SubscriptionId(old(self).next_id())),
            final(self).subscriptions() == old(self).subscriptions().push(
                (old(self).next_id(), event_type@),
            ),
            final(self).next_id() == old(self).next_id() + 1,
            final(self).entries().len() == old(self).entries().len() + 1,
            final(self).entries().drop_last() == old(self).entries(),
            final(self).entries().last() == (old(self).next_id(), event_type@, handler),
    {
        let id = SubscriptionId(self.next_id);
        self.next_id = self.next_id + 1;
        let ghost given = handler;
        let sub = Subscription::new(id, event_type, handler);
        let ghost before = self.subscriptions@;
        self.subscriptions.push(sub);
        let ghost after = self.subscriptions@;
        assert(after[before.len() as int].handler == given);
        assert(self.entries()[before.len() as int] == (old(self).next_id(), event_type@, given));
        assert(after[before.len() as int].id.0 == old(self).next_id());
        assert(forall|k: int| 0 <= k < before.len() ==> after[k] == before[k]);
        assert(self.subscriptions() =~= old(self).subscriptions().push(
            (old(self).next_id(), event_type@),
        ));
        assert(self.entries().drop_last() =~= old(self).entries());
        assert forall|a: int, b: int| 0 <= a < b < after.len() implies #[trigger] after[a].id.0
            < #[trigger] after[b].id.0 by {
            if b == before.len() {
                assert(before[a].id.0 < old(self).next_id());
            } else {
                assert(before[a].id.0 < before[b].id.0);
            }
        }
        assert forall|a: int| 0 <= a < after.len() implies 1 <= #[trigger] after[a].id.0
            < self.next_id by {
            if a < before.len() {
                assert(before[a].id.0 < old(self).next_id());
            }
        }
        Ok(id)
    }

    /// Removes the subscription with identifier `id`. Answers `Ok(true)` when it
    /// was present, `Ok(false)` (and no change) otherwise.
    pub fn unsubscribe(&mut self, id: SubscriptionId) -> (r: Result<bool, EventBusError>)
        requires
            old(self).wf(),
        ensures
            final(self).wf(),
            final(self).next_id() == old(self).next_id(),
            r == Ok::<bool, EventBusError>(has_id(old(self).subscriptions(), id.0)),
            has_id(old(self).subscriptions(), id.0) ==> exists|i: int|
                0 <= i < old(self).subscriptions().len() && old(self).subscriptions()[i].0 == id.0
                    && final(self).subscriptions() == old(self).subscriptions().remove(i)
                    && final(self).entries() == old(self).entries().remove(i),
            !has_id(old(self).subscriptions(), id.0) ==> final(self).subscriptions() == old(
                self,
            ).subscriptions() && final(self).entries() == old(self).entries(),
    {
        let mut i: usize = 0;
        while i < self.subscriptions.len()
            invariant
                i <= self.subscriptions@.len(),
                *self == *old(self),
                old(self).wf(),
                forall|k: int| 0 <= k < i ==> self.subscriptions@[k].id.0 != id.0,
            decreases self.subscriptions@.len() - i,
        {
            if self.subscriptions[i].id.0 == id.0 {
                let ghost before = self.subscriptions@;
                let _removed = self.subscriptions.remove(i);
                let ghost after = self.subscriptions@;
                assert(after =~= before.remove(i as int));
                assert(self.subscriptions() =~= old(self).subscriptions().remove(i as int));
                assert(self.entries() =~= old(self).entries().remove(i as int));
                assert forall|a: int, b: int| 0 <= a < b < after.len() implies #[trigger] after[
                    a
                ].id.0 < #[trigger] after[b].id.0 by {
                    let a0 = if a < i { a } else { a + 1 };
                    let b0 = if b < i { b } else { b + 1 };
                    assert(after[a] == before[a0]);
                    assert(after[b] == before[b0]);
                    assert(before[a0].id.0 < before[b0].id.0);
                }
                assert forall|a: int| 0 <= a < after.len() implies 1 <= #[trigger] after[a].id.0
                    < self.next_id by {
                    let a0 = if a < i { a } else { a + 1 };
                    assert(after[a] == before[a0]);
                    assert(1 <= before[a0].id.0 < self.next_id);
                }
                assert(old(self).subscriptions()[i as int].0 == id.0);
                return Ok(true);
            }
            i = i + 1;
        }
        assert(!has_id(old(self).subscriptions(), id.0));
        Ok(false)
    }

    /// Publishes `event` to every handler subscribed to its type, in registration
    /// order. Dispatch stops at the first handler that fails, and that error is
    /// returned; later handlers are not invoked. Without such handlers the answer
    /// is `Ok`.
    pub fn publish(&self, event: &Event) -> (r: Result<(), EventBusError>)
        ensures
            exists|answers: Seq<Result<(), EventBusError>>| dispatched(self, *event, answers, r),
            self.listener_count(event.type_view()) == 0 ==> r is Ok,
    {
        let ghost t = event.type_view();
        let ghost ents = self.entries();
        let ghost hs = self.handlers_for(t);
        let ghost mut answers: Seq<Result<(), EventBusError>> = Seq::empty();
        proof {
            self.lemma_entries();
        }
        let mut i: usize = 0;
        assert(ents.skip(0) =~= ents);
        while i < self.subscriptions.len()
            invariant
                i <= self.subscriptions@.len(),
                ents == self.entries(),
                ents.len() == self.subscriptions@.len(),
                t == event.type_view(),
                hs == handlers_of_type(ents, t),
                hs == self.handlers_for(t),
                hs.len() == self.listener_count(t),
                answers.len() <= hs.len(),
                handlers_of_type(ents.skip(i as int), t) == hs.skip(answers.len() as int),
                forall|k: int| 0 <= k < answers.len() ==> #[trigger] answers[k] is Ok,
                forall|k: int| 0 <= k < answers.len() ==> #[trigger] hs[k].answers(*event, answers[k]),
            decreases self.subscriptions@.len() - i,
        {
            let sub = &self.subscriptions[i];
            assert(ents.skip(i as int)[0] == ents[i as int]);
            assert(ents[i as int] == (sub.id.0, sub.event_type@, sub.handler));
            assert(ents.skip(i as int).drop_first() =~= ents.skip(i + 1));
            if crate::text::str_eq(sub.event_type.as_str(), event.event_type.as_str()) {
                let ghost a = answers.len() as int;
                assert(handlers_of_type(ents.skip(i as int), t) == seq![sub.handler]
                    + handlers_of_type(ents.skip(i + 1), t));
                assert(hs.skip(a).len() >= 1);
                assert(hs.skip(a)[0] == hs[a]);
                assert(hs.skip(a).drop_first() =~= hs.skip(a + 1));
                let res = sub.handler.handle(event);
                proof {
                    answers = answers.push(res);
                }
                assert(hs[a] == sub.handler);
                match res {
                    Ok(_) => {},
                    Err(e) => {
                        assert(dispatched(self, *event, answers, Err(e)));
                        return Err(e);
                    },
                }
            } else {
                assert(handlers_of_type(ents.skip(i as int), t) == handlers_of_type(
                    ents.skip(i + 1),
                    t,
                ));
            }
            i = i + 1;
        }
        assert(ents.skip(i as int) =~= Seq::<(u64, Seq<char>, Box<dyn EventHandler>)>::empty());
        assert(hs.skip(answers.len() as int).len() == 0);
        assert(dispatched(self, *event, answers, Ok(())));
        Ok(())
    }
}

} // verus!
