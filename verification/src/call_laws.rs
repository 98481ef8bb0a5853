//! What the operations on plugins give, said of their calls: from what goes in, what
//! was there before and what is there after.

use crate::error::Error;
use crate::events::{BootResponse, InternalEvent, InternalEventPayload};
use crate::exchange::{
    collector_of, exchange_with, open_exchange, Exchange, Outbound, ReplyCollector,
};
use crate::initialization::{init_step, InitAction, InitEvent, InitWorld, Initialization};
use crate::laws::{
    law_added_stands_last, law_event_goes_to_the_subscribers, law_found_by_dir,
    law_found_by_ref_id, law_installed_dirs_are_those_of_the_plugins,
    law_removed_is_the_first_with_the_id,
    law_search_by_name_ends_at_a_plugin_that_has_not_started,
};
use crate::manager::{
    installed_dirs, listen_addr, Boot, Delivery, InstalledPlugin, ManagerState, PluginManager,
    CHANNEL_CAPACITY, SERVER_TIMEOUT_SECS, TERMINATE_GRACE_MILLIS,
};
use crate::plugin_handle::{
    has_dir, has_ref_id, position_by_dir, position_by_ref_id, PluginHandle,
};
use crate::search::lemma_first_index;
use crate::request_laws::{
    law_collector_waits_for_what_is_sent, law_one_plugin_is_asked, law_request_goes_to_each_plugin,
    law_start_names_the_directory,
};
use vstd::prelude::*;

verus! {

// The manager

/// How long queues and waits are.
pub proof fn law_limits()
    ensures
        CHANNEL_CAPACITY == 128,
        SERVER_TIMEOUT_SECS == 10,
        TERMINATE_GRACE_MILLIS == 500,
{
}

/// The server listens on the local host, on the given port, or on one that is free.
pub proof fn law_server_listens_locally(port: Option<&str>, res: String)
    requires
        call_ensures(listen_addr, (port,), res),
    ensures
        res@ == "localhost:"@ + (match port {
            Some(p) => p@,
            None => seq!['0'],
        }),
{
    if port is None {
        reveal_strlit("localhost:");
        reveal_strlit("localhost:0");
        assert(res@ =~= "localhost:"@ + seq!['0']);
    }
}

/// A new manager has nothing, and goes on.
pub proof fn law_new_manager_has_nothing(res: PluginManager, rx_id: Seq<char>)
    requires
        call_ensures(PluginManager::new, (), res),
    ensures
        res@.plugins.len() == 0,
        res@.boots.len() == 0,
        !res@.subscribers.contains(rx_id),
        !res@.killed,
{
}

/// That subscriber has come, and nothing else has changed.
pub open spec fn is_joined_by(was: ManagerState, now: ManagerState, rx_id: Seq<char>) -> bool {
    &&& forall|id: Seq<char>| #[trigger]
        now.subscribers.contains(id) <==> was.subscribers.contains(id) || id == rx_id
    &&& now.plugins == was.plugins
    &&& now.boots == was.boots
    &&& now.killed == was.killed
}

/// Who subscribes is a subscriber, and nothing else changes.
pub proof fn law_subscribe(manager: &mut PluginManager, rx_id: String, res: ())
    requires
        call_ensures(PluginManager::subscribe, (manager, rx_id), res),
    ensures
        is_joined_by(old(manager)@, final(manager)@, rx_id@),
{
}

/// Who unsubscribes is no subscriber, and nothing else changes.
pub proof fn law_unsubscribe(manager: &mut PluginManager, rx_id: &str, res: ())
    requires
        call_ensures(PluginManager::unsubscribe, (manager, rx_id), res),
    ensures
        forall|id: Seq<char>| #[trigger]
            final(manager)@.subscribers.contains(id) <==> old(manager)@.subscribers.contains(id)
                && id != rx_id@,
        final(manager)@.plugins == old(manager)@.plugins,
        final(manager)@.boots == old(manager)@.boots,
        final(manager)@.killed == old(manager)@.killed,
{
}

/// An event is forwarded, as it is, to each subscriber once, and to nobody else.
pub proof fn law_forward(manager: &PluginManager, event: &InternalEvent, res: Vec<Delivery>)
    requires
        call_ensures(PluginManager::forward, (manager, event), res),
    ensures
        forall|i: int|
            0 <= i < res@.len() ==> (#[trigger] res@[i]).event == *event
                && manager@.subscribers.contains(res@[i].rx_id@),
        forall|i: int, j: int|
            0 <= i < j < res@.len() ==> (#[trigger] res@[i]).rx_id@ != (#[trigger] res@[j]).rx_id@,
        forall|rx_id: Seq<char>| #[trigger]
            manager@.subscribers.contains(rx_id) ==> exists|i: int|
                0 <= i < res@.len() && (#[trigger] res@[i]).rx_id@ == rx_id,
{
    law_event_goes_to_the_subscribers(manager@.subscribers, *event, res@);
}

/// The directories are the bundled ones, then those of the installed plugins, each in
/// their order and as they are. Installed plugins that could not be read count for none.
pub proof fn law_list_plugin_dirs(
    manager: &PluginManager,
    bundled: Vec<String>,
    installed: Result<Vec<InstalledPlugin>, Error>,
    res: Vec<String>,
)
    requires
        call_ensures(PluginManager::list_plugin_dirs, (manager, bundled, installed), res),
    ensures
        forall|i: int| 0 <= i < bundled@.len() ==> #[trigger] res@[i] == bundled@[i],
        match installed {
            Ok(plugins) => {
                &&& res@.len() == bundled@.len() + plugins@.len()
                &&& forall|i: int|
                    0 <= i < plugins@.len() ==> res@[bundled@.len() + i]
                        == (#[trigger] plugins@[i]).directory
            },
            Err(_) => res@.len() == bundled@.len(),
        },
{
    if let Ok(plugins) = installed {
        law_installed_dirs_are_those_of_the_plugins(Ok(plugins@));
        let dirs = installed_dirs(Ok(plugins@));
        assert forall|i: int| 0 <= i < plugins@.len() implies res@[bundled@.len() + i] == (
        #[trigger] plugins@[i]).directory by {
            assert(res@[bundled@.len() + i] == dirs[i]);
        }
    }
}

/// The `i`-th plugin is the first one from that directory.
pub open spec fn is_first_from(plugins: Seq<PluginHandle>, i: int, dir: Seq<char>) -> bool {
    0 <= i < plugins.len() && plugins[i].dir@ == dir && forall|j: int|
        0 <= j < i ==> (#[trigger] plugins[j]).dir@ != dir
}

/// The `i`-th plugin is the first one with that reference id.
pub open spec fn is_first_with(plugins: Seq<PluginHandle>, i: int, ref_id: Seq<char>) -> bool {
    0 <= i < plugins.len() && plugins[i].ref_id@ == ref_id && forall|j: int|
        0 <= j < i ==> (#[trigger] plugins[j]).ref_id@ != ref_id
}

/// The first plugin from a directory is the one that is found.
pub(crate) proof fn lemma_first_from(manager: &PluginManager, dir: Seq<char>)
    ensures
        match manager@.by_dir(dir) {
            Some(plugin) => exists|i: int| #[trigger]
                is_first_from(manager@.plugins, i, dir) && manager@.plugins[i] == plugin,
            None => forall|i: int| !#[trigger] is_first_from(manager@.plugins, i, dir),
        },
        forall|i: int| #[trigger]
            is_first_from(manager@.plugins, i, dir) ==> manager@.by_dir(dir) == Some(
                manager@.plugins[i],
            ),
{
    law_found_by_dir(manager@, dir);
    if let Some(plugin) = manager@.by_dir(dir) {
        let k = choose|k: int|
            #![trigger manager@.plugins[k]]
            0 <= k < manager@.plugins.len() && manager@.plugins[k] == plugin && plugin.dir@ == dir
                && forall|j: int| 0 <= j < k ==> (#[trigger] manager@.plugins[j]).dir@ != dir;
        assert(is_first_from(manager@.plugins, k, dir));
        assert forall|i: int| #[trigger] is_first_from(manager@.plugins, i, dir) implies i == k by {
            if i < k {
                assert(manager@.plugins[i].dir@ != dir);
            }
            if k < i {
                assert(manager@.plugins[k].dir@ != dir);
            }
        }
    }
}

/// The first plugin with a reference id is the one that is found.
pub(crate) proof fn lemma_first_with(manager: &PluginManager, ref_id: Seq<char>)
    ensures
        match manager@.by_ref_id(ref_id) {
            Some(plugin) => exists|i: int| #[trigger]
                is_first_with(manager@.plugins, i, ref_id) && manager@.plugins[i] == plugin,
            None => forall|i: int| !#[trigger] is_first_with(manager@.plugins, i, ref_id),
        },
        forall|i: int| #[trigger]
            is_first_with(manager@.plugins, i, ref_id) ==> manager@.by_ref_id(ref_id) == Some(
                manager@.plugins[i],
            ),
{
    law_found_by_ref_id(manager@, ref_id);
    if let Some(plugin) = manager@.by_ref_id(ref_id) {
        let k = choose|k: int|
            #![trigger manager@.plugins[k]]
            0 <= k < manager@.plugins.len() && manager@.plugins[k] == plugin && plugin.ref_id@
                == ref_id && forall|j: int|
                0 <= j < k ==> (#[trigger] manager@.plugins[j]).ref_id@ != ref_id;
        assert(is_first_with(manager@.plugins, k, ref_id));
        assert forall|i: int| #[trigger]
            is_first_with(manager@.plugins, i, ref_id) implies i == k by {
            if i < k {
                assert(manager@.plugins[i].ref_id@ != ref_id);
            }
            if k < i {
                assert(manager@.plugins[k].ref_id@ != ref_id);
            }
        }
    }
}

/// The position of a plugin is that of the first one with the directory, or with the
/// reference id; where there is none, it is the number of plugins.
pub proof fn law_positions(
    plugins: &Vec<PluginHandle>,
    dir: &str,
    ref_id: &str,
    by_dir: usize,
    by_ref_id: usize,
)
    requires
        call_ensures(position_by_dir, (plugins, dir), by_dir),
        call_ensures(position_by_ref_id, (plugins, ref_id), by_ref_id),
    ensures
        is_first_from(plugins@, by_dir as int, dir@) || (by_dir == plugins@.len() && forall|j: int|
            0 <= j < plugins@.len() ==> (#[trigger] plugins@[j]).dir@ != dir@),
        is_first_with(plugins@, by_ref_id as int, ref_id@) || (by_ref_id == plugins@.len()
            && forall|j: int|
            0 <= j < plugins@.len() ==> (#[trigger] plugins@[j]).ref_id@ != ref_id@),
{
    lemma_first_index(plugins@, has_dir(dir@));
    lemma_first_index(plugins@, has_ref_id(ref_id@));
    assert forall|j: int| 0 <= j < by_dir implies (#[trigger] plugins@[j]).dir@ != dir@ by {
        assert(!has_dir(dir@)(plugins@[j]));
    }
    assert forall|j: int| 0 <= j < by_ref_id implies (#[trigger] plugins@[j]).ref_id@
        != ref_id@ by {
        assert(!has_ref_id(ref_id@)(plugins@[j]));
    }
}

/// A search by directory gives the first plugin from there, if there is one.
pub proof fn law_get_plugin_by_dir(
    manager: &PluginManager,
    dir: &str,
    res: Option<PluginHandle>,
    i: int,
)
    requires
        call_ensures(PluginManager::get_plugin_by_dir, (manager, dir), res),
    ensures
        is_first_from(manager@.plugins, i, dir@) ==> res == Some(manager@.plugins[i]),
        (forall|j: int|
            0 <= j < manager@.plugins.len() ==> (#[trigger] manager@.plugins[j]).dir@ != dir@)
            ==> res is None,
{
    lemma_first_from(manager, dir@);
}

/// A search by reference id gives the first plugin with it, if there is one.
pub proof fn law_get_plugin_by_ref_id(
    manager: &PluginManager,
    ref_id: &str,
    res: Option<PluginHandle>,
    i: int,
)
    requires
        call_ensures(PluginManager::get_plugin_by_ref_id, (manager, ref_id), res),
    ensures
        is_first_with(manager@.plugins, i, ref_id@) ==> res == Some(manager@.plugins[i]),
        (forall|j: int|
            0 <= j < manager@.plugins.len() ==> (#[trigger] manager@.plugins[j]).ref_id@ != ref_id@)
            ==> res is None,
{
    lemma_first_with(manager, ref_id@);
}

/// What stands in a plugin's slot.
pub open spec fn said_by(boots: Seq<Option<BootResponse>>, plugin: PluginHandle) -> Option<
    BootResponse,
> {
    if plugin.slot < boots.len() {
        boots[plugin.slot as int]
    } else {
        None
    }
}

/// A search by name gives the first plugin that said that name, unless one that has
/// said nothing stands before it.
pub proof fn law_get_plugin_by_name(
    manager: &PluginManager,
    name: &str,
    res: Option<PluginHandle>,
    at: int,
)
    requires
        call_ensures(PluginManager::get_plugin_by_name, (manager, name), res),
        0 <= at <= manager@.plugins.len(),
        forall|j: int|
            #![trigger manager@.plugins[j]]
            0 <= j < at ==> (said_by(manager@.boots, manager@.plugins[j]) matches Some(info)
                && info.name@ != name@),
    ensures
        at == manager@.plugins.len() ==> res is None,
        at < manager@.plugins.len() ==> match said_by(manager@.boots, manager@.plugins[at]) {
            Some(info) => info.name@ == name@ ==> res == Some(manager@.plugins[at]),
            None => res is None,
        },
{
    assert forall|j: int| #![trigger manager@.plugins[j]] 0 <= j < at implies (manager@.info(
        manager@.plugins[j],
    ) matches Some(info) && info.name@ != name@) by {
        assert(said_by(manager@.boots, manager@.plugins[j]) matches Some(info) && info.name@
            != name@);
    }
    law_search_by_name_ends_at_a_plugin_that_has_not_started(manager@, name@, at);
}

/// What is known of a plugin is what stands in its slot.
pub proof fn law_info(manager: &PluginManager, plugin: &PluginHandle, res: Option<BootResponse>)
    requires
        call_ensures(PluginManager::info, (manager, plugin), res),
    ensures
        res == said_by(manager@.boots, *plugin),
{
}

/// The number of plugins is that of the list, and the runtime has been told to end if it
/// has been.
pub proof fn law_counts(manager: &PluginManager, count: usize, killed: bool)
    requires
        call_ensures(PluginManager::plugin_count, (manager,), count),
        call_ensures(PluginManager::is_killed, (manager,), killed),
    ensures
        count == manager@.plugins.len(),
        killed == manager@.killed,
{
}

/// To uninstall looks up the first plugin from the directory, and otherwise fails with
/// the directory.
pub proof fn law_uninstall(
    manager: &PluginManager,
    dir: &str,
    res: Result<PluginHandle, Error>,
    i: int,
)
    requires
        call_ensures(PluginManager::uninstall, (manager, dir), res),
    ensures
        is_first_from(manager@.plugins, i, dir@) ==> res == Ok::<PluginHandle, Error>(
            manager@.plugins[i],
        ),
        (forall|j: int|
            0 <= j < manager@.plugins.len() ==> (#[trigger] manager@.plugins[j]).dir@ != dir@) ==> (
        res matches Err(Error::PluginNotFoundErr(text)) && text@ == dir@),
{
    lemma_first_from(manager, dir@);
}

/// A terminated plugin is taken off the list: the first with its id, and no other. One
/// that could not be terminated stays, and the outcome is passed on.
pub proof fn law_remove_plugin(
    manager: &mut PluginManager,
    plugin: &PluginHandle,
    terminated: Result<(), Error>,
    res: Result<(), Error>,
    i: int,
)
    requires
        call_ensures(PluginManager::remove_plugin, (manager, plugin, terminated), res),
    ensures
        res == terminated,
        terminated is Err ==> final(manager)@ == old(manager)@,
        terminated is Ok && is_first_with(old(manager)@.plugins, i, plugin.ref_id@) ==> final(manager)@.plugins == old(manager)@.plugins.remove(i),
        (forall|j: int|
            0 <= j < old(manager)@.plugins.len() ==> (#[trigger] old(manager)@.plugins[j]).ref_id@
                != plugin.ref_id@) ==> final(manager)@.plugins == old(manager)@.plugins,
        final(manager)@.subscribers == old(manager)@.subscribers,
        final(manager)@.boots == old(manager)@.boots,
        final(manager)@.killed == old(manager)@.killed,
{
    let before = old(manager)@;
    if is_first_with(before.plugins, i, plugin.ref_id@) {
        law_removed_is_the_first_with_the_id(before, plugin.ref_id@, i);
        if terminated is Ok {
            assert(final(manager)@.plugins =~= before.plugins.remove(i));
        }
    }
    law_found_by_ref_id(before, plugin.ref_id@);
}

/// One event goes to this plugin, which asks it to start from the directory, and the
/// reply to it is waited for.
pub open spec fn starts_one(
    boot: Boot,
    plugin: PluginHandle,
    dir: Seq<char>,
    rx_id: Seq<char>,
    event_id: String,
) -> bool {
    &&& boot.plugin == plugin
    &&& boot.exchange@.rx_id == rx_id
    &&& boot.exchange@.sent == 0
    &&& boot.exchange@.outbound.len() == 1
    &&& boot.exchange@.outbound[0].plugin == plugin
    &&& boot.exchange@.outbound[0].event.id == event_id
    &&& boot.exchange@.outbound[0].event.plugin_ref_id == plugin.ref_id
    &&& boot.exchange@.outbound[0].event.reply_id is None
    &&& boot.exchange@.outbound[0].event.payload matches InternalEventPayload::BootRequest(req)
    &&& req.dir@ == dir
    &&& boot.collector@.expected == seq![event_id@]
    &&& boot.collector@.found.len() == 0
}

/// With the plugin client, a plugin from the directory under the id, that has not
/// started, comes to the end of the list, and the first plugin from the directory is
/// asked to start. Without the client nothing happens, and that is the error.
pub proof fn law_add_plugin_by_dir(
    manager: &mut PluginManager,
    dir: &str,
    connected: bool,
    ref_id: String,
    rx_id: String,
    event_id: String,
    res: Result<Boot, Error>,
    i: int,
)
    requires
        call_ensures(
            PluginManager::add_plugin_by_dir,
            (manager, dir, connected, ref_id, rx_id, event_id),
            res,
        ),
    ensures
        !connected ==> res == Err::<Boot, Error>(Error::ClientNotInitializedErr) && final(manager)@
            == old(manager)@,
        connected ==> {
            let was = old(manager)@.plugins;
            let now = final(manager)@.plugins;
            &&& res is Ok
            &&& now == was.push(now.last())
            &&& now.last().dir@ == dir@
            &&& now.last().ref_id@ == ref_id@
            &&& now.last().slot == old(manager)@.boots.len()
            &&& final(manager)@.boots == old(manager)@.boots.push(None)
            &&& final(manager)@.killed == old(manager)@.killed
            &&& forall|id: Seq<char>| #[trigger]
                final(manager)@.subscribers.contains(id) <==> old(manager)@.subscribers.contains(id)
                    || id == rx_id@
            &&& is_first_from(now, i, dir@) ==> starts_one(res->Ok_0, now[i], dir@, rx_id@, event_id)
        },
{
    if connected {
        let now = final(manager)@.plugins;
        law_added_stands_last(old(manager)@, now.last());
        assert(now =~= old(manager)@.plugins.push(now.last()));
        lemma_first_from(&*final(manager), dir@);
        law_start_names_the_directory(
            res->Ok_0,
            final(manager)@.by_dir(dir@)->0,
            dir@,
            rx_id@,
            event_id,
        );
    }
}

/// The first plugin from the directory is asked to start; without one, the directory is
/// the error, and nobody subscribes.
pub proof fn law_start_boot(
    manager: &mut PluginManager,
    dir: &str,
    rx_id: String,
    event_id: String,
    res: Result<Boot, Error>,
    i: int,
)
    requires
        call_ensures(PluginManager::start_boot, (manager, dir, rx_id, event_id), res),
    ensures
        is_first_from(old(manager)@.plugins, i, dir@) ==> res is Ok && starts_one(
            res->Ok_0,
            old(manager)@.plugins[i],
            dir@,
            rx_id@,
            event_id,
        ) && is_joined_by(old(manager)@, final(manager)@, rx_id@),
        (forall|j: int|
            0 <= j < old(manager)@.plugins.len() ==> (#[trigger] old(manager)@.plugins[j]).dir@
                != dir@) ==> (res matches Err(Error::PluginNotFoundErr(text)) && text@ == dir@)
            && final(manager)@ == old(manager)@,
        final(manager)@.plugins == old(manager)@.plugins,
        final(manager)@.boots == old(manager)@.boots,
        final(manager)@.killed == old(manager)@.killed,
{
    lemma_first_from(&*old(manager), dir@);
    if let Ok(boot) = res {
        law_start_names_the_directory(
            boot,
            old(manager)@.by_dir(dir@)->0,
            dir@,
            rx_id@,
            event_id,
        );
    }
}

/// What a plugin says when it starts is kept in its slot exactly as it was said. Any
/// other reply changes nothing, and is the error.
pub proof fn law_finish_boot(
    manager: &mut PluginManager,
    plugin: &PluginHandle,
    reply: Result<InternalEvent, Error>,
    res: Result<(), Error>,
)
    requires
        call_ensures(PluginManager::finish_boot, (manager, plugin, reply), res),
    ensures
        final(manager)@.plugins == old(manager)@.plugins,
        final(manager)@.subscribers == old(manager)@.subscribers,
        final(manager)@.killed == old(manager)@.killed,
        match reply {
            Err(error) => res == Err::<(), Error>(error) && final(manager)@.boots == old(manager)@.boots,
            Ok(event) => match event.payload {
                InternalEventPayload::BootResponse(resp) => res is Ok && (plugin.slot < old(manager)@.boots.len() ==> final(manager)@.boots == old(manager)@.boots.update(
                    plugin.slot as int,
                    Some(resp),
                )),
                _ => res == Err::<(), Error>(Error::UnknownEventErr) && final(manager)@.boots
                    == old(manager)@.boots,
            },
        },
{
}

/// The runtime is told to end, and nothing else changes.
pub proof fn law_terminate(manager: &mut PluginManager, res: ())
    requires
        call_ensures(PluginManager::terminate, (manager,), res),
    ensures
        final(manager)@.killed,
        final(manager)@.plugins == old(manager)@.plugins,
        final(manager)@.boots == old(manager)@.boots,
        final(manager)@.subscribers == old(manager)@.subscribers,
{
}

/// An answer goes to the first plugin with the id that the answered event names. It has
/// the given payload and id, and names the event that it answers. Without such a plugin
/// the id is the error.
pub proof fn law_reply(
    manager: &PluginManager,
    source: &InternalEvent,
    payload: &InternalEventPayload,
    event_id: String,
    res: Result<Outbound, Error>,
    i: int,
)
    requires
        call_ensures(PluginManager::reply, (manager, source, payload, event_id), res),
    ensures
        is_first_with(manager@.plugins, i, source.plugin_ref_id@) ==> (res matches Ok(out)
            && out.plugin == manager@.plugins[i] && out.event.id == event_id
            && out.event.plugin_ref_id@ == source.plugin_ref_id@ && out.event.reply_id == Some(
            source.id,
        ) && out.event.payload == *payload),
        (forall|j: int|
            0 <= j < manager@.plugins.len() ==> (#[trigger] manager@.plugins[j]).ref_id@
                != source.plugin_ref_id@) ==> (res matches Err(Error::PluginNotFoundErr(text))
            && text@ == source.plugin_ref_id@),
{
    lemma_first_with(manager, source.plugin_ref_id@);
}

/// A plugin's handle has the directory, the id and the slot that it was given, and an
/// event for it what that was given.
pub proof fn law_handle_and_its_events(
    dir: &str,
    ref_id: String,
    slot: usize,
    plugin: PluginHandle,
    payload: &InternalEventPayload,
    reply_id: Option<String>,
    id: String,
    event: InternalEvent,
)
    requires
        call_ensures(PluginHandle::new, (dir, ref_id, slot), plugin),
        call_ensures(PluginHandle::build_event_to_send, (&plugin, payload, reply_id, id), event),
    ensures
        plugin.dir@ == dir@,
        plugin.ref_id == ref_id,
        plugin.slot == slot,
        event.id == id,
        event.plugin_ref_id == ref_id,
        event.reply_id == reply_id,
        event.payload == *payload,
{
}

// Asking

/// One event under each id goes to the plugin in the same place, with the payload; it
/// answers nothing, and the collector waits for a reply to each.
pub open spec fn asks_each(
    exchange: Exchange,
    collector: ReplyCollector,
    plugins: Seq<PluginHandle>,
    rx_id: Seq<char>,
    event_ids: Seq<String>,
) -> bool {
    &&& exchange@.rx_id == rx_id
    &&& exchange@.sent == 0
    &&& exchange@.outbound.len() == plugins.len()
    &&& forall|i: int|
        #![trigger exchange@.outbound[i]]
        0 <= i < plugins.len() ==> {
            &&& exchange@.outbound[i].event.id == event_ids[i]
            &&& exchange@.outbound[i].event.plugin_ref_id == plugins[i].ref_id
            &&& exchange@.outbound[i].event.reply_id is None
            &&& exchange@.outbound[i].plugin.ref_id@ == plugins[i].ref_id@
            &&& plugins.contains(exchange@.outbound[i].plugin)
        }
    &&& collector@.found.len() == 0
    &&& collector@.expected.len() == event_ids.len()
    &&& forall|i: int|
        0 <= i < event_ids.len() ==> #[trigger] collector@.expected[i] == event_ids[i]@
}

/// What is asked of each plugin has these ids and plugins.
pub(crate) proof fn lemma_asks_each(
    exchange: Exchange,
    collector: ReplyCollector,
    payload: InternalEventPayload,
    plugins: Seq<PluginHandle>,
    rx_id: Seq<char>,
    event_ids: Seq<String>,
)
    requires
        event_ids.len() == plugins.len(),
        exchange@ == exchange_with(payload, plugins, rx_id, event_ids),
        collector@ == collector_of(event_ids),
    ensures
        asks_each(exchange, collector, plugins, rx_id, event_ids),
        forall|i: int|
            0 <= i < plugins.len() ==> (#[trigger] exchange@.outbound[i]).event.payload == payload,
{
    law_request_goes_to_each_plugin(payload, plugins, rx_id, event_ids);
    law_collector_waits_for_what_is_sent(payload, plugins, rx_id, event_ids);
    assert forall|i: int| #![trigger exchange@.outbound[i]] 0 <= i < plugins.len() implies {
        &&& exchange@.outbound[i].event.id == event_ids[i]
        &&& exchange@.outbound[i].event.plugin_ref_id == plugins[i].ref_id
        &&& exchange@.outbound[i].event.reply_id is None
        &&& exchange@.outbound[i].plugin.ref_id@ == plugins[i].ref_id@
        &&& plugins.contains(exchange@.outbound[i].plugin)
    } by {
        let out = exchange@.outbound[i];
        let k = choose|k: int|
            #![trigger plugins[k]]
            0 <= k <= i && plugins[k] == out.plugin && plugins[k].ref_id@ == plugins[i].ref_id@;
        assert(plugins[k] == out.plugin);
    }
}

/// The request and its collector are made up for each of the given plugins.
pub proof fn law_open_exchange(
    payload: &InternalEventPayload,
    plugins: &Vec<PluginHandle>,
    rx_id: String,
    event_ids: Vec<String>,
    res: (Exchange, ReplyCollector),
)
    requires
        event_ids@.len() == plugins@.len(),
        call_ensures(open_exchange, (payload, plugins, rx_id, event_ids), res),
    ensures
        asks_each(res.0, res.1, plugins@, rx_id@, event_ids@),
        forall|i: int|
            0 <= i < plugins@.len() ==> (#[trigger] res.0@.outbound[i]).event.payload == *payload,
{
    lemma_asks_each(res.0, res.1, *payload, plugins@, rx_id@, event_ids@);
}

/// Each of the given plugins is asked the same, and somebody waits for the replies.
pub proof fn law_send_to_plugins_and_wait(
    manager: &mut PluginManager,
    payload: &InternalEventPayload,
    plugins: &Vec<PluginHandle>,
    rx_id: String,
    event_ids: Vec<String>,
    res: (Exchange, ReplyCollector),
)
    requires
        event_ids@.len() == plugins@.len(),
        call_ensures(
            PluginManager::send_to_plugins_and_wait,
            (manager, payload, plugins, rx_id, event_ids),
            res,
        ),
    ensures
        asks_each(res.0, res.1, plugins@, rx_id@, event_ids@),
        forall|i: int|
            0 <= i < plugins@.len() ==> (#[trigger] res.0@.outbound[i]).event.payload == *payload,
        is_joined_by(old(manager)@, final(manager)@, rx_id@),
{
    lemma_asks_each(res.0, res.1, *payload, plugins@, rx_id@, event_ids@);
}

/// Each listed plugin is asked the same, and somebody waits for the replies.
pub proof fn law_send_and_wait(
    manager: &mut PluginManager,
    payload: &InternalEventPayload,
    rx_id: String,
    event_ids: Vec<String>,
    res: (Exchange, ReplyCollector),
)
    requires
        event_ids@.len() == old(manager)@.plugins.len(),
        call_ensures(PluginManager::send_and_wait, (manager, payload, rx_id, event_ids), res),
    ensures
        asks_each(res.0, res.1, old(manager)@.plugins, rx_id@, event_ids@),
        forall|i: int|
            0 <= i < old(manager)@.plugins.len() ==> (
            #[trigger] res.0@.outbound[i]).event.payload == *payload,
        is_joined_by(old(manager)@, final(manager)@, rx_id@),
{
    lemma_asks_each(res.0, res.1, *payload, old(manager)@.plugins, rx_id@, event_ids@);
}

/// The one plugin is asked, and somebody waits for the reply.
pub proof fn law_send_to_plugin_and_wait(
    manager: &mut PluginManager,
    plugin: &PluginHandle,
    payload: &InternalEventPayload,
    rx_id: String,
    event_id: String,
    res: (Exchange, ReplyCollector),
)
    requires
        call_ensures(
            PluginManager::send_to_plugin_and_wait,
            (manager, plugin, payload, rx_id, event_id),
            res,
        ),
    ensures
        asks_each(res.0, res.1, seq![*plugin], rx_id@, seq![event_id]),
        res.0@.outbound[0].plugin == *plugin,
        res.0@.outbound[0].event.payload == *payload,
        is_joined_by(old(manager)@, final(manager)@, rx_id@),
{
    law_one_plugin_is_asked(
        res.0@,
        res.1@,
        *plugin,
        |p: InternalEventPayload| p == *payload,
        rx_id@,
        event_id,
    );
    assert(seq![*plugin][0] == *plugin);
    assert(seq![event_id][0] == event_id);
}

/// The one who waited is no subscriber any more, and the replies are those that were
/// collected, in their order.
pub proof fn law_close_exchange(
    manager: &mut PluginManager,
    exchange: Exchange,
    collector: ReplyCollector,
    res: Vec<InternalEvent>,
)
    requires
        call_ensures(PluginManager::close_exchange, (manager, exchange, collector), res),
    ensures
        res@ == collector@.found,
        forall|id: Seq<char>| #[trigger]
            final(manager)@.subscribers.contains(id) <==> old(manager)@.subscribers.contains(id)
                && id != exchange@.rx_id,
        final(manager)@.plugins == old(manager)@.plugins,
        final(manager)@.boots == old(manager)@.boots,
        final(manager)@.killed == old(manager)@.killed,
{
}

/// The events are sent one by one in their order, and each success moves one on; the
/// first failure ends the sending, with its error.
pub proof fn law_exchange_sends_in_order(
    exchange: &mut Exchange,
    outcome: Result<(), Error>,
    next: Option<&Outbound>,
    rx_id: &str,
    res: Result<(), Error>,
)
    requires
        call_ensures(Exchange::next_send, (&*old(exchange),), next),
        call_ensures(Exchange::rx_id, (&*old(exchange),), rx_id),
        call_ensures(Exchange::sent, (exchange, outcome), res),
    ensures
        rx_id@ == old(exchange)@.rx_id,
        old(exchange)@.sent < old(exchange)@.outbound.len() ==> next == Some(
            &old(exchange)@.outbound[old(exchange)@.sent as int],
        ),
        old(exchange)@.sent >= old(exchange)@.outbound.len() ==> next is None,
        res == outcome,
        final(exchange)@.outbound == old(exchange)@.outbound,
        final(exchange)@.rx_id == old(exchange)@.rx_id,
        final(exchange)@.sent == old(exchange)@.sent + (if outcome is Ok {
            1int
        } else {
            0int
        }),
{
}

/// An event that is offered is kept if and only if it names one of the expected ids as
/// the one that it answers. One that answers nothing never is, whatever it carries. The
/// wait is over when there are as many replies as expected ids.
pub proof fn law_offer(collector: &mut ReplyCollector, event: InternalEvent, res: bool)
    requires
        call_ensures(ReplyCollector::offer, (collector, event), res),
    ensures
        final(collector)@.expected == old(collector)@.expected,
        event.reply_id is None ==> final(collector)@.found == old(collector)@.found,
        event.reply_id matches Some(id) ==> {
            &&& (exists|k: int|
                0 <= k < old(collector)@.expected.len() && id@ == #[trigger] old(collector)@.expected[k]) ==> final(collector)@.found == old(collector)@.found.push(event)
            &&& (forall|k: int|
                0 <= k < old(collector)@.expected.len() ==> id@ != #[trigger] old(collector)@.expected[k]) ==> final(collector)@.found == old(collector)@.found
        },
        res <==> final(collector)@.found.len() == old(collector)@.expected.len(),
{
}

/// The events of a collector are those that it kept, in their order.
pub proof fn law_into_events(collector: ReplyCollector, res: Vec<InternalEvent>)
    requires
        call_ensures(ReplyCollector::into_events, (collector,), res),
    ensures
        res@ == collector@.found,
{
}

// Loading

/// A loading starts before the first directory, and a step does what [`init_step`] says.
pub proof fn law_step(
    loader: &PluginManager,
    dirs: Vec<String>,
    start: Initialization,
    init: &mut Initialization,
    manager: &mut PluginManager,
    event: InitEvent,
    action: InitAction,
)
    requires
        call_ensures(PluginManager::initialize_all_plugins, (loader, dirs), start),
        call_ensures(Initialization::step, (init, manager, event), action),
    ensures
        start@.dirs == dirs@,
        start@.next == 0,
        start@.phase is Lookup,
        init_step(
            (InitWorld { init: old(init)@, manager: old(manager)@ }),
            event,
            (InitWorld { init: final(init)@, manager: final(manager)@ }),
            action,
        ),
{
}

} // verus!
