//! Requests to plugins and the replies to them.

use crate::error::Error;
use crate::events::{InternalEvent, InternalEventPayload};
use crate::plugin_handle::{event_to, has_ref_id, position_by_ref_id, PluginHandle};
use crate::search::{find, lemma_first_index};
use vstd::prelude::*;

verus! {

/// An event and the plugin that it is to be handed to.
#[derive(Debug, PartialEq, Eq)]
pub struct Outbound {
    /// The plugin that receives the event.
    pub plugin: PluginHandle,
    /// The event.
    pub event: InternalEvent,
}

/// What is to be sent for one request, and how much of it has been sent.
#[derive(Debug)]
pub struct Exchange {
    rx_id: String,
    outbound: Vec<Outbound>,
    sent: usize,
}

/// The state of an [`Exchange`].
pub struct ExchangeState {
    /// The subscription through which the replies come.
    pub rx_id: Seq<char>,
    /// The events to send, in order.
    pub outbound: Seq<Outbound>,
    /// How many of them have been sent.
    pub sent: nat,
}

impl View for Exchange {
    type V = ExchangeState;

    closed spec fn view(&self) -> ExchangeState {
        ExchangeState { rx_id: self.rx_id@, outbound: self.outbound@, sent: self.sent as nat }
    }
}

/// Gathers the replies to a request.
#[derive(Debug)]
pub struct ReplyCollector {
    expected: Vec<String>,
    found: Vec<InternalEvent>,
}

/// The state of a [`ReplyCollector`].
pub struct CollectorState {
    /// The ids of the events that were sent.
    pub expected: Seq<Seq<char>>,
    /// The replies so far, in the order in which they came.
    pub found: Seq<InternalEvent>,
}

impl View for ReplyCollector {
    type V = CollectorState;

    closed spec fn view(&self) -> CollectorState {
        CollectorState { expected: ids_of(self.expected@), found: self.found@ }
    }
}

/// The text of each id.
pub open spec fn ids_of(ids: Seq<String>) -> Seq<Seq<char>> {
    ids.map_values(|id: String| id@)
}

/// The event answers one of the events with these ids.
pub open spec fn answers(expected: Seq<Seq<char>>) -> spec_fn(InternalEvent) -> bool {
    |event: InternalEvent| event.reply_id matches Some(id) && expected.contains(id@)
}

impl CollectorState {
    /// The state after one more event came in: a reply is kept, anything else is
    /// passed over.
    pub open spec fn offered(self, event: InternalEvent) -> CollectorState {
        if answers(self.expected)(event) {
            CollectorState { found: self.found.push(event), ..self }
        } else {
            self
        }
    }

    /// There are as many replies as there were events.
    pub open spec fn is_full(self) -> bool {
        self.found.len() == self.expected.len()
    }

    /// The state once the collector has read `stream`: it reads until it is full,
    /// and looks whether it is full after each event that it has read.
    pub open spec fn run(self, stream: Seq<InternalEvent>) -> CollectorState
        decreases stream.len(),
    {
        if stream.len() == 0 {
            self
        } else if self.offered(stream[0]).is_full() {
            self.offered(stream[0])
        } else {
            self.offered(stream[0]).run(stream.drop_first())
        }
    }
}

/// The event for the `i`-th of `plugins`, with the plugin that it goes to: the
/// first one whose reference id it names.
pub open spec fn outbound_to(
    payload: InternalEventPayload,
    plugins: Seq<PluginHandle>,
    event_ids: Seq<String>,
    i: int,
) -> Outbound {
    let event = event_to(plugins[i], payload, None, event_ids[i]);
    Outbound { plugin: find(plugins, has_ref_id(event.plugin_ref_id@))->0, event }
}

/// The exchange that asks each of `plugins` the same.
pub open spec fn exchange_with(
    payload: InternalEventPayload,
    plugins: Seq<PluginHandle>,
    rx_id: Seq<char>,
    event_ids: Seq<String>,
) -> ExchangeState {
    ExchangeState {
        rx_id,
        outbound: Seq::new(plugins.len(), |i: int| outbound_to(payload, plugins, event_ids, i)),
        sent: 0,
    }
}

/// The collector that waits for replies to the events with these ids.
pub open spec fn collector_of(event_ids: Seq<String>) -> CollectorState {
    CollectorState { expected: ids_of(event_ids), found: Seq::empty() }
}

/// Builds the events that ask each of `plugins` the same, and the collector of
/// the replies.
pub fn open_exchange(
    payload: &InternalEventPayload,
    plugins: &Vec<PluginHandle>,
    rx_id: String,
    event_ids: Vec<String>,
) -> (res: (Exchange, ReplyCollector))
    requires
        event_ids@.len() == plugins@.len(),
    ensures
        res.0@ == exchange_with(*payload, plugins@, rx_id@, event_ids@),
        res.1@ == collector_of(event_ids@),
        res.0@.outbound.len() == plugins@.len(),
        forall|i: int|
            0 <= i < plugins@.len() ==> (#[trigger] res.0@.outbound[i]).event.id == event_ids@[i]
                && res.0@.outbound[i].event.plugin_ref_id == plugins@[i].ref_id
                && res.0@.outbound[i].event.reply_id is None && res.0@.outbound[i].event.payload
                == *payload,
        res.1@.expected.len() == event_ids@.len(),
        forall|i: int|
            0 <= i < event_ids@.len() ==> #[trigger] res.1@.expected[i] == event_ids@[i]@,
        res.1@.found.len() == 0,
{
    let mut outbound: Vec<Outbound> = Vec::new();
    let mut i: usize = 0;
    while i < plugins.len()
        invariant
            i <= plugins@.len(),
            event_ids@.len() == plugins@.len(),
            outbound@.len() == i,
            forall|j: int|
                0 <= j < i ==> #[trigger] outbound@[j] == outbound_to(
                    *payload,
                    plugins@,
                    event_ids@,
                    j,
                ),
        decreases plugins@.len() - i,
    {
        let event = plugins[i].build_event_to_send(payload, None, event_ids[i].clone());
        let at = position_by_ref_id(plugins, event.plugin_ref_id.as_str());
        proof {
            let pred = has_ref_id(event.plugin_ref_id@);
            lemma_first_index(plugins@, pred);
            if at == plugins@.len() {
                assert(!pred(plugins@[i as int]));
            }
        }
        outbound.push(Outbound { plugin: plugins[at].clone(), event });
        i = i + 1;
    }
    let exchange = Exchange { rx_id, outbound, sent: 0 };
    let collector = ReplyCollector { expected: event_ids, found: Vec::new() };
    proof {
        assert(exchange@.outbound =~= exchange_with(
            *payload,
            plugins@,
            rx_id@,
            event_ids@,
        ).outbound);
        assert(collector@.found =~= Seq::empty());
    }
    (exchange, collector)
}

impl Exchange {
    /// The subscription through which the replies come.
    pub fn rx_id(&self) -> (res: &str)
        ensures
            res@ == self@.rx_id,
    {
        self.rx_id.as_str()
    }

    /// What is to be sent next; nothing where all has been sent.
    pub fn next_send(&self) -> (res: Option<&Outbound>)
        ensures
            self@.sent < self@.outbound.len() ==> res == Some(&self@.outbound[self@.sent as int]),
            self@.sent >= self@.outbound.len() ==> res is None,
    {
        if self.sent < self.outbound.len() {
            Some(&self.outbound[self.sent])
        } else {
            None
        }
    }

    /// Takes note of how the last send ended. The first one that fails ends the
    /// exchange with its error.
    pub fn sent(&mut self, outcome: Result<(), Error>) -> (res: Result<(), Error>)
        requires
            old(self)@.sent < old(self)@.outbound.len(),
        ensures
            res == outcome,
            outcome is Err ==> final(self)@ == old(self)@,
            outcome is Ok ==> final(self)@ == (ExchangeState {
                sent: old(self)@.sent + 1,
                ..old(self)@
            }),
    {
        if outcome.is_ok() {
            assert(self.sent < self.outbound.len());
            self.sent = self.sent + 1;
        }
        outcome
    }
}

impl ReplyCollector {
    /// Takes an event that came in, and says whether that was the last one to
    /// wait for.
    pub fn offer(&mut self, event: InternalEvent) -> (res: bool)
        ensures
            final(self)@ == old(self)@.offered(event),
            final(self)@.expected == old(self)@.expected,
            final(self)@.found == old(self)@.found.push(event) || final(self)@.found == old(
                self,
            )@.found,
            final(self)@.found.len() > old(self)@.found.len() <==> (event.reply_id matches Some(id)
                && exists|k: int|
                0 <= k < old(self)@.expected.len() && id@ == #[trigger] old(self)@.expected[k]),
            res == final(self)@.is_full(),
            res == (final(self)@.found.len() == final(self)@.expected.len()),
    {
        let mut found = false;
        if let Some(id) = &event.reply_id {
            let mut i: usize = 0;
            while i < self.expected.len() && !found
                invariant
                    i <= self.expected@.len(),
                    found ==> ids_of(self.expected@).contains(id@),
                    !found ==> forall|j: int| 0 <= j < i ==> #[trigger] self.expected@[j]@ != id@,
                decreases self.expected@.len() - i,
            {
                if self.expected[i] == *id {
                    assert(ids_of(self.expected@)[i as int] == id@);
                    found = true;
                }
                i = i + 1;
            }
            proof {
                if !found && ids_of(self.expected@).contains(id@) {
                    let j = choose|j: int|
                        0 <= j < ids_of(self.expected@).len() && ids_of(self.expected@)[j] == id@;
                    assert(self.expected@[j]@ == id@);
                }
            }
        }
        if found {
            self.found.push(event);
        }
        self.found.len() == self.expected.len()
    }

    /// The replies, in the order in which they came.
    pub fn into_events(self) -> (res: Vec<InternalEvent>)
        ensures
            res@ == self@.found,
    {
        self.found
    }
}

} // verus!
