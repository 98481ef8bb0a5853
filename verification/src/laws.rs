//! What holds of the manager as a whole.

use crate::error::Error;
use crate::events::{BootResponse, InternalEvent, InternalEventPayload};
use crate::exchange::{answers, ids_of, outbound_to, CollectorState};
use crate::filtering::{lemma_filter_one, lemma_filter_push};
use crate::manager::{
    forwards, installed_dirs, is_new_plugin, receivers, Delivery, InstalledPlugin, ManagerState,
};
use crate::paths::{ends_listing, gives_dir, listed, listed_all, EntryRead};
use crate::plugin_handle::{event_to, has_dir, has_ref_id, PluginHandle};
use crate::search::{find, first_index, lemma_first_index, lemma_is_first};
use vstd::prelude::*;

verus! {

// The start

/// A manager starts with nobody listening, no plugin, nothing said by any plugin, and a
/// plugin runtime that goes on.
pub proof fn law_manager_starts_empty(rx_id: Seq<char>)
    ensures
        !ManagerState::initial().subscribers.contains(rx_id),
        ManagerState::initial().plugins.len() == 0,
        ManagerState::initial().boots.len() == 0,
        !ManagerState::initial().killed,
{
}

/// The directories of installed plugins are given one for each plugin, in their order,
/// as they are; where the plugins could not be read, there are none.
pub proof fn law_installed_dirs_are_those_of_the_plugins(
    installed: Result<Seq<InstalledPlugin>, Error>,
)
    ensures
        match installed {
            Ok(plugins) => {
                let dirs = installed_dirs(installed);
                &&& dirs.len() == plugins.len()
                &&& forall|i: int|
                    0 <= i < plugins.len() ==> #[trigger] dirs[i] == plugins[i].directory
            },
            Err(_) => installed_dirs(installed).len() == 0,
        },
{
}

// Subscribers

/// To subscribe adds exactly that subscriber, and changes nothing else.
pub proof fn law_subscribing_adds_one(state: ManagerState, rx_id: Seq<char>)
    ensures
        forall|id: Seq<char>| #[trigger]
            state.subscribed(rx_id).subscribers.contains(id) <==> state.subscribers.contains(id)
                || id == rx_id,
        state.subscribed(rx_id).plugins == state.plugins,
        state.subscribed(rx_id).boots == state.boots,
        state.subscribed(rx_id).killed == state.killed,
{
}

/// To unsubscribe takes exactly that subscriber off, and changes nothing else.
pub proof fn law_unsubscribing_takes_one(state: ManagerState, rx_id: Seq<char>)
    ensures
        forall|id: Seq<char>| #[trigger]
            state.unsubscribed(rx_id).subscribers.contains(id) <==> state.subscribers.contains(id)
                && id != rx_id,
        state.unsubscribed(rx_id).plugins == state.plugins,
        state.unsubscribed(rx_id).boots == state.boots,
        state.unsubscribed(rx_id).killed == state.killed,
{
}

/// An event goes, as it is, to everyone who is subscribed, once, and to nobody else.
pub proof fn law_event_goes_to_the_subscribers(
    subscribers: Set<Seq<char>>,
    event: InternalEvent,
    deliveries: Seq<Delivery>,
)
    requires
        forwards(subscribers, event, deliveries),
    ensures
        forall|i: int|
            0 <= i < deliveries.len() ==> (#[trigger] deliveries[i]).event == event
                && subscribers.contains(deliveries[i].rx_id@),
        forall|i: int, j: int|
            0 <= i < j < deliveries.len() ==> (#[trigger] deliveries[i]).rx_id@ != (
            #[trigger] deliveries[j]).rx_id@,
        forall|rx_id: Seq<char>| #[trigger]
            subscribers.contains(rx_id) ==> exists|i: int|
                0 <= i < deliveries.len() && (#[trigger] deliveries[i]).rx_id@ == rx_id,
{
    let to = receivers(deliveries);
    assert forall|i: int| 0 <= i < deliveries.len() implies (#[trigger] deliveries[i]).event
        == event && subscribers.contains(deliveries[i].rx_id@) by {
        assert(to[i] == deliveries[i].rx_id@);
        assert(to.to_set().contains(to[i]));
    }
    assert forall|i: int, j: int| 0 <= i < j < deliveries.len() implies (
    #[trigger] deliveries[i]).rx_id@ != (#[trigger] deliveries[j]).rx_id@ by {
        assert(to[i] != to[j]);
    }
    assert forall|rx_id: Seq<char>| #[trigger] subscribers.contains(rx_id) implies exists|i: int|
        0 <= i < deliveries.len() && (#[trigger] deliveries[i]).rx_id@ == rx_id by {
        assert(to.to_set().contains(rx_id));
        let i = choose|i: int| 0 <= i < to.len() && to[i] == rx_id;
        assert(deliveries[i].rx_id@ == rx_id);
    }
}

/// A subscriber that comes and goes leaves nothing behind.
pub proof fn law_subscription_ends(state: ManagerState, rx_id: Seq<char>)
    requires
        !state.subscribers.contains(rx_id),
    ensures
        state.subscribed(rx_id).unsubscribed(rx_id) == state,
{
    assert(state.subscribed(rx_id).unsubscribed(rx_id) =~= state);
}

/// Who subscribed gets each event exactly once.
pub proof fn law_subscriber_gets_event_once(
    state: ManagerState,
    rx_id: Seq<char>,
    event: InternalEvent,
    deliveries: Seq<Delivery>,
)
    requires
        forwards(state.subscribed(rx_id).subscribers, event, deliveries),
    ensures
        exists|i: int|
            #![trigger deliveries[i]]
            0 <= i < deliveries.len() && deliveries[i].rx_id@ == rx_id && deliveries[i].event
                == event && forall|j: int|
                0 <= j < deliveries.len() && (#[trigger] deliveries[j]).rx_id@ == rx_id ==> j == i,
{
    let to = receivers(deliveries);
    assert(to.to_set().contains(rx_id));
    let i = choose|i: int| 0 <= i < to.len() && to[i] == rx_id;
    assert(deliveries[i].rx_id@ == rx_id);
    assert forall|j: int|
        0 <= j < deliveries.len() && (#[trigger] deliveries[j]).rx_id@ == rx_id implies j == i by {
        assert(to[j] == rx_id);
    }
}

/// Who unsubscribed gets nothing any more.
pub proof fn law_unsubscribed_gets_nothing(
    state: ManagerState,
    rx_id: Seq<char>,
    event: InternalEvent,
    deliveries: Seq<Delivery>,
)
    requires
        forwards(state.unsubscribed(rx_id).subscribers, event, deliveries),
    ensures
        forall|i: int| 0 <= i < deliveries.len() ==> (#[trigger] deliveries[i]).rx_id@ != rx_id,
{
    let to = receivers(deliveries);
    assert forall|i: int| 0 <= i < deliveries.len() implies (#[trigger] deliveries[i]).rx_id@
        != rx_id by {
        assert(to[i] == deliveries[i].rx_id@);
        assert(to.contains(to[i]));
        assert(to.to_set().contains(to[i]));
    }
}

/// A delivery, and whether the subscriber's queue took it. One that is full, or that
/// nobody reads any more, does not.
pub struct Handover {
    /// The delivery.
    pub delivery: Delivery,
    /// The queue took it.
    pub taken: bool,
}

/// The deliveries that this subscriber's queue took.
pub open spec fn is_taken(rx_id: Seq<char>) -> spec_fn(Handover) -> bool {
    |h: Handover| h.taken && h.delivery.rx_id@ == rx_id
}

/// One event on its way to those who were subscribed when it came.
pub struct Forwarded {
    /// Who was subscribed.
    pub subscribers: Set<Seq<char>>,
    /// The event.
    pub event: InternalEvent,
    /// What became of each delivery.
    pub handovers: Seq<Handover>,
}

impl Forwarded {
    /// The deliveries are those of the event.
    pub open spec fn is_forwarded(self) -> bool {
        forwards(
            self.subscribers,
            self.event,
            self.handovers.map_values(|h: Handover| h.delivery),
        )
    }

    /// That subscriber's queue took its delivery.
    pub open spec fn is_taken_by(self, rx_id: Seq<char>) -> bool {
        exists|i: int|
            0 <= i < self.handovers.len() && (#[trigger] self.handovers[i]).delivery.rx_id@ == rx_id
                && self.handovers[i].taken
    }

    /// What comes into that subscriber's queue.
    pub open spec fn received_by(self, rx_id: Seq<char>) -> Seq<InternalEvent> {
        self.handovers.filter(is_taken(rx_id)).map_values(|h: Handover| h.delivery.event)
    }
}

/// What comes into that subscriber's queue as the events are forwarded one by one.
pub open spec fn received(stream: Seq<Forwarded>, rx_id: Seq<char>) -> Seq<InternalEvent>
    decreases stream.len(),
{
    if stream.len() == 0 {
        Seq::empty()
    } else {
        received(stream.drop_last(), rx_id) + stream.last().received_by(rx_id)
    }
}

/// Of one event, a subscriber gets one copy if its own queue takes it, and none
/// otherwise.
proof fn lemma_received_once(forwarded: Forwarded, rx_id: Seq<char>)
    requires
        forwarded.is_forwarded(),
    ensures
        forwarded.is_taken_by(rx_id) ==> forwarded.received_by(rx_id) == seq![forwarded.event],
        !forwarded.is_taken_by(rx_id) ==> forwarded.received_by(rx_id) == Seq::<
            InternalEvent,
        >::empty(),
{
    let handovers = forwarded.handovers;
    let deliveries = handovers.map_values(|h: Handover| h.delivery);
    let pred = is_taken(rx_id);
    if forwarded.is_taken_by(rx_id) {
        let i = choose|i: int|
            0 <= i < handovers.len() && (#[trigger] handovers[i]).delivery.rx_id@ == rx_id
                && handovers[i].taken;
        let to = receivers(deliveries);
        assert forall|j: int| 0 <= j < handovers.len() && pred(#[trigger] handovers[j]) implies j
            == i by {
            assert(to[j] == rx_id && to[i] == rx_id);
        }
        lemma_filter_one(handovers, i, pred);
        assert(deliveries[i].event == forwarded.event);
        assert(forwarded.received_by(rx_id) =~= seq![forwarded.event]);
    } else {
        assert forall|j: int| 0 <= j < handovers.len() implies !pred(#[trigger] handovers[j]) by {}
        handovers.lemma_all_neg_filter_empty(pred);
        assert(forwarded.received_by(rx_id) =~= Seq::empty());
    }
}

/// A queue that is full harms nobody else: whatever the other queues do, a subscriber
/// gets each event that its own queue takes, once, in the order in which the events
/// came, and misses only those that its own queue does not take.
pub proof fn law_full_queue_harms_nobody(stream: Seq<Forwarded>, rx_id: Seq<char>)
    requires
        forall|k: int| 0 <= k < stream.len() ==> (#[trigger] stream[k]).is_forwarded(),
    ensures
        received(stream, rx_id) == stream.filter(
            |f: Forwarded| f.is_taken_by(rx_id),
        ).map_values(|f: Forwarded| f.event),
        forall|k: int|
            0 <= k < stream.len() && (#[trigger] stream[k]).is_taken_by(rx_id)
                ==> stream[k].subscribers.contains(rx_id),
    decreases stream.len(),
{
    let pred = |f: Forwarded| f.is_taken_by(rx_id);
    let event = |f: Forwarded| f.event;
    if stream.len() == 0 {
        reveal(Seq::filter);
        assert(stream.filter(pred).map_values(event) =~= Seq::empty());
    } else {
        let rest = stream.drop_last();
        let last = stream.last();
        law_full_queue_harms_nobody(rest, rx_id);
        lemma_received_once(last, rx_id);
        assert(rest.push(last) =~= stream);
        lemma_filter_push(rest, last, pred);
        assert(received(stream, rx_id) =~= stream.filter(pred).map_values(event));
    }
    assert forall|k: int|
        0 <= k < stream.len() && (#[trigger] stream[k]).is_taken_by(
            rx_id,
        ) implies stream[k].subscribers.contains(rx_id) by {
        let handovers = stream[k].handovers;
        let to = receivers(handovers.map_values(|h: Handover| h.delivery));
        let i = choose|i: int|
            0 <= i < handovers.len() && (#[trigger] handovers[i]).delivery.rx_id@ == rx_id
                && handovers[i].taken;
        assert(to[i] == rx_id);
        assert(to.to_set().contains(rx_id));
    }
}

// Plugins

/// No two plugins have the same reference id.
pub open spec fn distinct_ref_ids(plugins: Seq<PluginHandle>) -> bool {
    forall|i: int, j: int|
        0 <= i < j < plugins.len() ==> (#[trigger] plugins[i]).ref_id@ != (#[trigger] plugins[j]).ref_id@
}

/// No two plugins come from the same directory.
pub open spec fn distinct_dirs(plugins: Seq<PluginHandle>) -> bool {
    forall|i: int, j: int|
        0 <= i < j < plugins.len() ==> (#[trigger] plugins[i]).dir@ != (#[trigger] plugins[j]).dir@
}

/// Nothing is found exactly where no plugin fits.
pub(crate) proof fn lemma_none_found(plugins: Seq<PluginHandle>, pred: spec_fn(PluginHandle) -> bool)
    ensures
        find(plugins, pred) is None <==> forall|i: int|
            0 <= i < plugins.len() ==> !pred(#[trigger] plugins[i]),
{
    lemma_first_index(plugins, pred);
}

/// A search by directory finds the first plugin from exactly that directory, and
/// nothing only where no plugin is from there.
pub proof fn law_found_by_dir(state: ManagerState, dir: Seq<char>)
    ensures
        match state.by_dir(dir) {
            Some(plugin) => exists|i: int|
                #![trigger state.plugins[i]]
                0 <= i < state.plugins.len() && state.plugins[i] == plugin && plugin.dir@ == dir
                    && forall|j: int| 0 <= j < i ==> (#[trigger] state.plugins[j]).dir@ != dir,
            None => forall|j: int|
                0 <= j < state.plugins.len() ==> (#[trigger] state.plugins[j]).dir@ != dir,
        },
{
    let pred = has_dir(dir);
    lemma_first_index(state.plugins, pred);
    let i = first_index(state.plugins, pred);
    assert forall|j: int| 0 <= j < i implies (#[trigger] state.plugins[j]).dir@ != dir by {
        assert(!pred(state.plugins[j]));
    }
    if i < state.plugins.len() {
        assert(state.plugins[i].dir@ == dir);
    }
}

/// A search by reference id finds the first plugin with exactly that id, and nothing
/// only where no plugin has it.
pub proof fn law_found_by_ref_id(state: ManagerState, ref_id: Seq<char>)
    ensures
        match state.by_ref_id(ref_id) {
            Some(plugin) => exists|i: int|
                #![trigger state.plugins[i]]
                0 <= i < state.plugins.len() && state.plugins[i] == plugin && plugin.ref_id@
                    == ref_id && forall|j: int|
                    0 <= j < i ==> (#[trigger] state.plugins[j]).ref_id@ != ref_id,
            None => forall|j: int|
                0 <= j < state.plugins.len() ==> (#[trigger] state.plugins[j]).ref_id@ != ref_id,
        },
{
    let pred = has_ref_id(ref_id);
    lemma_first_index(state.plugins, pred);
    let i = first_index(state.plugins, pred);
    assert forall|j: int| 0 <= j < i implies (#[trigger] state.plugins[j]).ref_id@ != ref_id by {
        assert(!pred(state.plugins[j]));
    }
    if i < state.plugins.len() {
        assert(state.plugins[i].ref_id@ == ref_id);
    }
}

/// A plugin that is added stands at the end of the list, behind the plugins that were
/// there, and nothing else changes but that it gets a slot in which nothing is said.
pub proof fn law_added_stands_last(state: ManagerState, plugin: PluginHandle)
    ensures
        state.added(plugin).plugins.len() == state.plugins.len() + 1,
        state.added(plugin).plugins.last() == plugin,
        forall|i: int|
            0 <= i < state.plugins.len() ==> #[trigger] state.added(plugin).plugins[i]
                == state.plugins[i],
        state.added(plugin).boots.len() == state.boots.len() + 1,
        state.added(plugin).boots.last() is None,
        forall|i: int|
            0 <= i < state.boots.len() ==> #[trigger] state.added(plugin).boots[i]
                == state.boots[i],
        state.added(plugin).subscribers == state.subscribers,
        state.added(plugin).killed == state.killed,
{
}

/// A new plugin is from exactly the directory, under exactly the id, with the slot.
pub proof fn law_new_plugin_is_as_asked(
    plugin: PluginHandle,
    dir: Seq<char>,
    ref_id: Seq<char>,
    slot: nat,
)
    ensures
        is_new_plugin(plugin, dir, ref_id, slot) <==> plugin.dir@ == dir && plugin.ref_id@ == ref_id
            && plugin.slot == slot,
{
}

/// Removal by reference id takes the first plugin with that id off the list, and no
/// other; those before it keep their places, and those behind it move up by one.
pub proof fn law_removed_is_the_first_with_the_id(state: ManagerState, ref_id: Seq<char>, at: int)
    requires
        0 <= at < state.plugins.len(),
        state.plugins[at].ref_id@ == ref_id,
        forall|j: int| 0 <= j < at ==> (#[trigger] state.plugins[j]).ref_id@ != ref_id,
    ensures
        ({
            let after = state.removed(ref_id);
            &&& after.plugins.len() == state.plugins.len() - 1
            &&& forall|j: int| 0 <= j < at ==> #[trigger] after.plugins[j] == state.plugins[j]
            &&& forall|j: int|
                at <= j < after.plugins.len() ==> #[trigger] after.plugins[j] == state.plugins[j
                    + 1]
            &&& after.subscribers == state.subscribers
            &&& after.boots == state.boots
            &&& after.killed == state.killed
        }),
{
    assert forall|j: int| 0 <= j < at implies !has_ref_id(ref_id)(#[trigger] state.plugins[j]) by {
        assert(state.plugins[j].ref_id@ != ref_id);
    }
    lemma_is_first(state.plugins, has_ref_id(ref_id), at);
}

/// What is known of a plugin is what stands in its slot, whichever copy of its handle is
/// asked.
pub proof fn law_info_is_what_stands_in_the_slot(
    state: ManagerState,
    plugin: PluginHandle,
    copy: PluginHandle,
)
    ensures
        plugin.slot < state.boots.len() ==> state.info(plugin)
            == state.boots[plugin.slot as int],
        plugin.slot >= state.boots.len() ==> state.info(plugin) is None,
        copy.slot == plugin.slot ==> state.info(copy) == state.info(plugin),
{
}

/// A plugin with a fresh reference id keeps the ids distinct.
pub proof fn law_added_keeps_ref_ids_distinct(state: ManagerState, plugin: PluginHandle)
    requires
        distinct_ref_ids(state.plugins),
        state.by_ref_id(plugin.ref_id@) is None,
    ensures
        distinct_ref_ids(state.added(plugin).plugins),
{
    lemma_none_found(state.plugins, has_ref_id(plugin.ref_id@));
    let added = state.added(plugin).plugins;
    assert forall|i: int, j: int| 0 <= i < j < added.len() implies (
    #[trigger] added[i]).ref_id@ != (#[trigger] added[j]).ref_id@ by {
        assert(!has_ref_id(plugin.ref_id@)(state.plugins[i]));
    }
}

/// Removal keeps the reference ids distinct.
pub proof fn law_removed_keeps_ref_ids_distinct(state: ManagerState, ref_id: Seq<char>)
    requires
        distinct_ref_ids(state.plugins),
    ensures
        distinct_ref_ids(state.removed(ref_id).plugins),
{
    lemma_first_index(state.plugins, has_ref_id(ref_id));
}

/// An added plugin is found by its directory and its id; where none had them
/// before, it is that plugin that is found.
pub proof fn law_added_is_found(state: ManagerState, plugin: PluginHandle)
    ensures
        state.by_dir(plugin.dir@) matches Some(found) ==> state.added(plugin).by_dir(plugin.dir@)
            == Some(found),
        state.by_dir(plugin.dir@) is None ==> state.added(plugin).by_dir(plugin.dir@) == Some(
            plugin,
        ),
        state.by_ref_id(plugin.ref_id@) matches Some(found) ==> state.added(plugin).by_ref_id(
            plugin.ref_id@,
        ) == Some(found),
        state.by_ref_id(plugin.ref_id@) is None ==> state.added(plugin).by_ref_id(plugin.ref_id@)
            == Some(plugin),
{
    lemma_find_in_push(state.plugins, plugin, has_dir(plugin.dir@));
    lemma_find_in_push(state.plugins, plugin, has_ref_id(plugin.ref_id@));
}

/// A search in a longer list finds what it found before, and otherwise the new
/// item, if that fits.
pub(crate) proof fn lemma_find_in_push(
    plugins: Seq<PluginHandle>,
    plugin: PluginHandle,
    pred: spec_fn(PluginHandle) -> bool,
)
    ensures
        find(plugins, pred) is Some ==> find(plugins.push(plugin), pred) == find(plugins, pred),
        find(plugins, pred) is None && pred(plugin) ==> find(plugins.push(plugin), pred) == Some(
            plugin,
        ),
        find(plugins, pred) is None && !pred(plugin) ==> find(plugins.push(plugin), pred) is None,
{
    let longer = plugins.push(plugin);
    lemma_first_index(plugins, pred);
    let i = first_index(plugins, pred);
    assert forall|j: int| 0 <= j < i implies !pred(#[trigger] longer[j]) by {
        assert(longer[j] == plugins[j]);
    }
    if i < plugins.len() {
        assert(longer[i] == plugins[i]);
        lemma_is_first(longer, pred, i);
    } else if pred(plugin) {
        lemma_is_first(longer, pred, i);
    } else {
        lemma_is_first(longer, pred, i + 1);
    }
}

/// A plugin with a fresh id that is added and removed leaves the list as it was. Only
/// its slot stays.
pub proof fn law_added_then_removed(state: ManagerState, plugin: PluginHandle)
    requires
        state.by_ref_id(plugin.ref_id@) is None,
    ensures
        state.added(plugin).removed(plugin.ref_id@) == (ManagerState {
            boots: state.boots.push(None),
            ..state
        }),
{
    let pred = has_ref_id(plugin.ref_id@);
    lemma_none_found(state.plugins, pred);
    let added = state.added(plugin).plugins;
    assert forall|j: int| 0 <= j < state.plugins.len() implies !pred(#[trigger] added[j]) by {
        assert(added[j] == state.plugins[j]);
    }
    lemma_is_first(added, pred, state.plugins.len() as int);
    assert(state.added(plugin).removed(plugin.ref_id@).plugins =~= state.plugins);
}

/// Removal takes at most the one plugin away; the others keep their order.
pub proof fn law_removed_takes_one(state: ManagerState, ref_id: Seq<char>)
    ensures
        match state.by_ref_id(ref_id) {
            None => state.removed(ref_id) == state,
            Some(plugin) => exists|i: int|
                0 <= i < state.plugins.len() && state.plugins[i] == plugin && state.removed(
                    ref_id,
                ).plugins == #[trigger] state.plugins.remove(i),
        },
        state.removed(ref_id).subscribers == state.subscribers,
        state.removed(ref_id).boots == state.boots,
        state.removed(ref_id).killed == state.killed,
{
    lemma_first_index(state.plugins, has_ref_id(ref_id));
    let i = first_index(state.plugins, has_ref_id(ref_id));
    if i < state.plugins.len() {
        let rest = state.plugins.remove(i);
        assert(state.removed(ref_id).plugins == rest);
    }
}

/// After a plugin was uninstalled, its directory and its id find nothing, where
/// each plugin has its own.
pub proof fn law_uninstalled_is_gone(state: ManagerState, dir: Seq<char>)
    requires
        distinct_ref_ids(state.plugins),
        distinct_dirs(state.plugins),
    ensures
        state.by_dir(dir) matches Some(plugin) ==> {
            let after = state.removed(plugin.ref_id@);
            &&& after.by_dir(dir) is None
            &&& after.by_ref_id(plugin.ref_id@) is None
            &&& after.plugins.len() == state.plugins.len() - 1
            &&& distinct_dirs(after.plugins)
        },
{
    if let Some(plugin) = state.by_dir(dir) {
        let i = first_index(state.plugins, has_dir(dir));
        lemma_first_index(state.plugins, has_dir(dir));
        lemma_first_index(state.plugins, has_ref_id(plugin.ref_id@));
        let k = first_index(state.plugins, has_ref_id(plugin.ref_id@));
        assert(state.plugins[i] == plugin);
        assert(has_ref_id(plugin.ref_id@)(state.plugins[i]));
        assert(k <= i) by {
            if i < k {
                assert(!has_ref_id(plugin.ref_id@)(state.plugins[i]));
            }
        }
        assert(k == i);
        let after = state.removed(plugin.ref_id@).plugins;
        assert(after == state.plugins.remove(i));
        assert forall|j: int| 0 <= j < after.len() implies !has_dir(dir)(#[trigger] after[j])
            && !has_ref_id(plugin.ref_id@)(after[j]) by {
            let from = if j < i {
                j
            } else {
                j + 1
            };
            assert(after[j] == state.plugins[from]);
        }
        lemma_none_found(after, has_dir(dir));
        lemma_none_found(after, has_ref_id(plugin.ref_id@));
    }
}

/// Each plugin keeps a slot of its own, whatever is added, removed or started.
pub proof fn law_slots_stay_apart(
    state: ManagerState,
    plugin: PluginHandle,
    dir: Seq<char>,
    ref_id: Seq<char>,
    resp: BootResponse,
)
    requires
        state.has_own_slots(),
    ensures
        is_new_plugin(plugin, dir, ref_id, state.boots.len()) ==> state.added(
            plugin,
        ).has_own_slots(),
        state.removed(ref_id).has_own_slots(),
        state.booted(plugin, resp).has_own_slots(),
{
    lemma_first_index(state.plugins, has_ref_id(ref_id));
}

/// A start changes only what the plugin said of itself. Afterwards that is known of
/// every copy of the plugin's handle, and of no other plugin.
pub proof fn law_booted_is_known(
    state: ManagerState,
    asked: PluginHandle,
    resp: BootResponse,
    other: PluginHandle,
)
    requires
        asked.slot < state.boots.len(),
    ensures
        ({
            let after = state.booted(asked, resp);
            &&& after.subscribers == state.subscribers
            &&& after.plugins == state.plugins
            &&& after.killed == state.killed
            &&& other.slot == asked.slot ==> after.info(other) == Some(resp)
            &&& other.slot != asked.slot ==> after.info(other) == state.info(other)
        }),
{
}

/// What a plugin said of itself stays known of each copy of its handle, whoever
/// subscribes or goes, and whatever plugin is added or removed, that one too.
pub proof fn law_info_stays(
    state: ManagerState,
    known: PluginHandle,
    rx_id: Seq<char>,
    plugin: PluginHandle,
    ref_id: Seq<char>,
)
    requires
        known.slot < state.boots.len(),
    ensures
        state.subscribed(rx_id).info(known) == state.info(known),
        state.unsubscribed(rx_id).info(known) == state.info(known),
        state.added(plugin).info(known) == state.info(known),
        state.removed(ref_id).info(known) == state.info(known),
{
}

/// A plugin that is added has not started, and it takes no other plugin's slot.
pub proof fn law_added_has_not_started(
    state: ManagerState,
    plugin: PluginHandle,
    dir: Seq<char>,
    ref_id: Seq<char>,
)
    requires
        state.has_own_slots(),
        is_new_plugin(plugin, dir, ref_id, state.boots.len()),
    ensures
        state.added(plugin).info(plugin) is None,
        forall|i: int|
            0 <= i < state.plugins.len() ==> (#[trigger] state.plugins[i]).slot != plugin.slot,
{
}

/// Where every plugin has started, a search by name finds the first plugin that has
/// the name, and nothing only where none has it.
pub proof fn law_found_by_name(state: ManagerState, name: Seq<char>)
    requires
        forall|i: int|
            0 <= i < state.plugins.len() ==> state.info(#[trigger] state.plugins[i]) is Some,
    ensures
        match state.by_name(name) {
            Some(plugin) => state.info(plugin)->0.name@ == name && exists|i: int|
                #![trigger state.plugins[i]]
                0 <= i < state.plugins.len() && state.plugins[i] == plugin && forall|j: int|
                    0 <= j < i ==> state.info(#[trigger] state.plugins[j])->0.name@ != name,
            None => forall|i: int|
                0 <= i < state.plugins.len() ==> state.info(#[trigger] state.plugins[i])->0.name@
                    != name,
        },
{
    let pred = state.may_be_named(name);
    lemma_first_index(state.plugins, pred);
    let k = first_index(state.plugins, pred);
    assert forall|i: int| 0 <= i < k implies state.info(#[trigger] state.plugins[i])->0.name@
        != name by {
        assert(!pred(state.plugins[i]));
    }
    if k < state.plugins.len() {
        assert(state.by_name(name) == Some(state.plugins[k]));
    }
}

/// A search by name goes through the list up to the first plugin that has exactly the
/// name, which it finds, or that has not started, where it ends without a result.
pub proof fn law_search_by_name_ends_at_a_plugin_that_has_not_started(
    state: ManagerState,
    name: Seq<char>,
    at: int,
)
    requires
        0 <= at <= state.plugins.len(),
        forall|j: int|
            #![trigger state.plugins[j]]
            0 <= j < at ==> (state.info(state.plugins[j]) matches Some(info) && info.name@ != name),
    ensures
        at == state.plugins.len() ==> state.by_name(name) is None,
        at < state.plugins.len() ==> match state.info(state.plugins[at]) {
            Some(info) => info.name@ == name ==> state.by_name(name) == Some(state.plugins[at]),
            None => state.by_name(name) is None,
        },
{
    let pred = state.may_be_named(name);
    assert forall|j: int| 0 <= j < at implies !pred(#[trigger] state.plugins[j]) by {
        assert(state.info(state.plugins[j]) matches Some(info) && info.name@ != name);
    }
    if at == state.plugins.len() || pred(state.plugins[at]) {
        lemma_is_first(state.plugins, pred, at);
    }
}

/// Once the plugin runtime was told to end, nothing takes that back.
pub proof fn law_killed_stays(
    state: ManagerState,
    rx_id: Seq<char>,
    plugin: PluginHandle,
    ref_id: Seq<char>,
    resp: BootResponse,
)
    requires
        state.killed,
    ensures
        state.subscribed(rx_id).killed,
        state.unsubscribed(rx_id).killed,
        state.added(plugin).killed,
        state.removed(ref_id).killed,
        state.booted(plugin, resp).killed,
{
}

// Requests and replies

/// An event is always handed to a listed plugin with the reference id that it names.
/// Where each plugin has its own, that is the plugin it was built for.
pub proof fn law_event_reaches_its_plugin(
    payload: InternalEventPayload,
    plugins: Seq<PluginHandle>,
    event_ids: Seq<String>,
    i: int,
)
    requires
        0 <= i < plugins.len(),
        event_ids.len() == plugins.len(),
    ensures
        ({
            let out = outbound_to(payload, plugins, event_ids, i);
            &&& plugins.contains(out.plugin)
            &&& out.plugin.ref_id@ == out.event.plugin_ref_id@
            &&& distinct_ref_ids(plugins) ==> out.plugin == plugins[i]
        }),
{
    let pred = has_ref_id(plugins[i].ref_id@);
    lemma_first_index(plugins, pred);
    let k = first_index(plugins, pred);
    assert(pred(plugins[i]));
    assert(k <= i) by {
        if i < k {
            assert(!pred(plugins[i]));
        }
    }
}

/// An answer names the event that it answers, so whoever waits for answers to that
/// event keeps it.
pub proof fn law_reply_is_an_answer(
    source: InternalEvent,
    plugin: PluginHandle,
    payload: InternalEventPayload,
    event_id: String,
    expected: Seq<Seq<char>>,
)
    ensures
        answers(expected)(event_to(plugin, payload, Some(source.id), event_id))
            <==> expected.contains(source.id@),
{
}

/// Whoever asked gets the answer: an event that answers one of the events that were
/// sent is delivered to the asker's subscription, and the collector that waits for
/// such answers keeps it behind what it has.
pub proof fn law_answer_reaches_asker(
    state: ManagerState,
    rx_id: Seq<char>,
    event_ids: Seq<String>,
    collector: CollectorState,
    answer: InternalEvent,
    deliveries: Seq<Delivery>,
)
    requires
        collector.expected == ids_of(event_ids),
        answers(ids_of(event_ids))(answer),
        forwards(state.subscribed(rx_id).subscribers, answer, deliveries),
    ensures
        exists|i: int|
            #![trigger deliveries[i]]
            0 <= i < deliveries.len() && deliveries[i].rx_id@ == rx_id && collector.offered(
                deliveries[i].event,
            ).found == collector.found.push(answer),
{
    law_subscriber_gets_event_once(state, rx_id, answer, deliveries);
    let i = choose|i: int|
        #![trigger deliveries[i]]
        0 <= i < deliveries.len() && deliveries[i].rx_id@ == rx_id && deliveries[i].event == answer;
    assert(collector.offered(deliveries[i].event).found == collector.found.push(answer));
}

/// The number of events that a collector reads of a stream.
pub open spec fn events_read(collector: CollectorState, stream: Seq<InternalEvent>) -> nat
    decreases stream.len(),
{
    if stream.len() == 0 {
        0
    } else if collector.offered(stream[0]).is_full() {
        1
    } else {
        1 + events_read(collector.offered(stream[0]), stream.drop_first())
    }
}

/// What a collector gathers are the answers among the events that it has read, in
/// the order in which they came, and it reads on until it is full.
pub proof fn law_collector_keeps_answers(collector: CollectorState, stream: Seq<InternalEvent>)
    ensures
        ({
            let read = events_read(collector, stream);
            let after = collector.run(stream);
            &&& read <= stream.len()
            &&& after.expected == collector.expected
            &&& after.found == collector.found + stream.take(read as int).filter(
                answers(collector.expected),
            )
            &&& read < stream.len() ==> after.is_full()
        }),
    decreases stream.len(),
{
    reveal(Seq::filter);
    let pred = answers(collector.expected);
    let read = events_read(collector, stream);
    if stream.len() == 0 {
        assert(stream.take(0).filter(pred) =~= Seq::empty());
    } else {
        let first = stream[0];
        let next = collector.offered(first);
        assert(seq![first].drop_last() =~= Seq::<InternalEvent>::empty());
        assert(seq![first].drop_last().filter(pred) =~= Seq::empty());
        let kept = seq![first].filter(pred);
        assert(next.found =~= collector.found + kept);
        if next.is_full() {
            assert(stream.take(1) =~= seq![first]);
        } else {
            let rest = stream.drop_first();
            law_collector_keeps_answers(next, rest);
            let m = events_read(next, rest);
            assert(stream.take(read as int) =~= seq![first] + rest.take(m as int));
            Seq::filter_distributes_over_add(seq![first], rest.take(m as int), pred);
            assert(collector.run(stream).found =~= collector.found + (kept + rest.take(
                m as int,
            ).filter(pred)));
        }
    }
}

/// A collector that waits for at least one more reply never takes more replies than
/// there were events, and is full as soon as that many have come.
pub proof fn law_collector_takes_no_more(collector: CollectorState, stream: Seq<InternalEvent>)
    requires
        collector.found.len() < collector.expected.len(),
    ensures
        collector.run(stream).found.len() <= collector.expected.len(),
        collector.run(stream).is_full() <==> collector.found.len() + stream.filter(
            answers(collector.expected),
        ).len() >= collector.expected.len(),
    decreases stream.len(),
{
    reveal(Seq::filter);
    let pred = answers(collector.expected);
    if stream.len() > 0 {
        let first = stream[0];
        let next = collector.offered(first);
        let rest = stream.drop_first();
        assert(seq![first].drop_last() =~= Seq::<InternalEvent>::empty());
        assert(seq![first].drop_last().filter(pred) =~= Seq::empty());
        assert(stream =~= seq![first] + rest);
        Seq::filter_distributes_over_add(seq![first], rest, pred);
        if !next.is_full() {
            law_collector_takes_no_more(next, rest);
        }
    }
}

/// Every reply that is gathered answers one of the events that were sent.
pub proof fn law_replies_answer(event_ids: Seq<Seq<char>>, stream: Seq<InternalEvent>)
    ensures
        ({
            let after = (CollectorState { expected: event_ids, found: Seq::empty() }).run(stream);
            forall|i: int|
                0 <= i < after.found.len() ==> answers(event_ids)(#[trigger] after.found[i])
        }),
{
    let collector = CollectorState { expected: event_ids, found: Seq::empty() };
    law_collector_keeps_answers(collector, stream);
    let read = stream.take(events_read(collector, stream) as int);
    let after = collector.run(stream);
    assert forall|i: int| 0 <= i < after.found.len() implies answers(event_ids)(
        #[trigger] after.found[i],
    ) by {
        read.lemma_filter_pred(answers(event_ids), i);
    }
}

/// Whoever waits for one reply gets the first answer that comes in, if one comes.
pub proof fn law_first_answer_counts(event_id: Seq<char>, stream: Seq<InternalEvent>)
    ensures
        ({
            let collector = CollectorState { expected: seq![event_id], found: Seq::empty() };
            collector.run(stream).found == match find(stream, answers(seq![event_id])) {
                Some(answer) => seq![answer],
                None => Seq::empty(),
            }
        }),
    decreases stream.len(),
{
    let collector = CollectorState { expected: seq![event_id], found: Seq::empty() };
    let pred = answers(seq![event_id]);
    if stream.len() > 0 {
        if pred(stream[0]) {
            assert(collector.offered(stream[0]).found =~= seq![stream[0]]);
        } else {
            let rest = stream.drop_first();
            law_first_answer_counts(event_id, rest);
            lemma_first_index(rest, pred);
        }
    }
}

/// A request to no plugin at all ends, without replies, with the first event that
/// comes in.
pub proof fn law_request_to_nobody(stream: Seq<InternalEvent>)
    requires
        stream.len() > 0,
    ensures
        ({
            let collector = CollectorState { expected: Seq::empty(), found: Seq::empty() };
            &&& events_read(collector, stream) == 1
            &&& collector.run(stream).found.len() == 0
        }),
{
}

// Directories

/// A listing holds the paths of the directories that were read before the first read
/// that ended it, in their order.
pub proof fn law_listing_holds_dirs(dirs: Seq<String>, reads: Seq<EntryRead>)
    ensures
        listed_all(dirs, reads) == dirs + reads.take(first_index(reads, ends_listing())).filter(
            gives_dir(),
        ).map_values(|read: EntryRead| read->path),
    decreases reads.len(),
{
    reveal(Seq::filter);
    let path = |read: EntryRead| read->path;
    lemma_first_index(reads, ends_listing());
    let k = first_index(reads, ends_listing());
    if reads.len() == 0 || ends_listing()(reads[0]) {
        assert(reads.take(0).filter(gives_dir()).map_values(path) =~= Seq::empty());
    } else {
        let first = reads[0];
        let rest = reads.drop_first();
        let m = first_index(rest, ends_listing());
        lemma_first_index(rest, ends_listing());
        law_listing_holds_dirs(listed(dirs, first), rest);
        assert(k == m + 1);
        assert(reads.take(k) =~= seq![first] + rest.take(m));
        Seq::filter_distributes_over_add(seq![first], rest.take(m), gives_dir());
        assert(seq![first].drop_last() =~= Seq::<EntryRead>::empty());
        assert(seq![first].drop_last().filter(gives_dir()) =~= Seq::empty());
        let kept = seq![first].filter(gives_dir());
        assert(listed(dirs, first) =~= dirs + kept.map_values(path));
        assert((kept + rest.take(m).filter(gives_dir())).map_values(path) =~= kept.map_values(path)
            + rest.take(m).filter(gives_dir()).map_values(path));
        assert(listed_all(dirs, reads) =~= dirs + (kept + rest.take(m).filter(
            gives_dir(),
        )).map_values(path));
    }
}

} // verus!
