//! The plugins that run, and who listens to them.

use crate::error::Error;
use crate::events::{BootRequest, BootResponse, InternalEvent, InternalEventPayload};
use crate::exchange::{
    collector_of, exchange_with, ids_of, open_exchange, CollectorState, Exchange, ExchangeState,
    Outbound, ReplyCollector,
};
use crate::plugin_handle::{
    event_to, has_dir, has_ref_id, position_by_dir, position_by_ref_id, PluginHandle,
};
use crate::search::{find, first_index, lemma_first_index, lemma_is_first};
use vstd::prelude::*;

verus! {

/// How many events a subscriber may have waiting.
pub const CHANNEL_CAPACITY: usize = 128;

/// After how many seconds the plugin server gives a request up.
pub const SERVER_TIMEOUT_SECS: u64 = 10;

/// How many milliseconds the plugin runtime has to end after it was told to.
pub const TERMINATE_GRACE_MILLIS: u64 = 500;

/// The address that the plugin server listens on: the given port, or one that the
/// system picks.
pub fn listen_addr(port: Option<&str>) -> (res: String)
    ensures
        port matches Some(p) ==> res@ == "localhost:"@ + p@,
        port is None ==> res@ == "localhost:0"@,
{
    match port {
        None => "localhost:0".to_owned(),
        Some(port) => {
            let mut addr = "localhost:".to_owned();
            addr.append(port);
            addr
        },
    }
}

/// An installed plugin, as the application's database knows it.
#[derive(Debug, PartialEq, Eq)]
pub struct InstalledPlugin {
    /// The directory that it was installed from.
    pub directory: String,
}

/// The directories of the installed plugins; none where they could not be read.
pub open spec fn installed_dirs(installed: Result<Seq<InstalledPlugin>, Error>) -> Seq<String> {
    match installed {
        Ok(plugins) => plugins.map_values(|p: InstalledPlugin| p.directory),
        Err(_) => Seq::empty(),
    }
}

/// An event for one subscriber.
#[derive(Debug, PartialEq, Eq)]
pub struct Delivery {
    /// The subscriber.
    pub rx_id: String,
    /// The event.
    pub event: InternalEvent,
}

/// The subscribers that deliveries go to.
pub open spec fn receivers(deliveries: Seq<Delivery>) -> Seq<Seq<char>> {
    deliveries.map_values(|d: Delivery| d.rx_id@)
}

/// Each subscriber gets the event, once.
pub open spec fn forwards(
    subscribers: Set<Seq<char>>,
    event: InternalEvent,
    deliveries: Seq<Delivery>,
) -> bool {
    &&& receivers(deliveries).no_duplicates()
    &&& receivers(deliveries).to_set() == subscribers
    &&& forall|i: int| 0 <= i < deliveries.len() ==> (#[trigger] deliveries[i]).event == event
}

/// Keeps the list of plugins and the list of subscribers to their events.
#[derive(Debug)]
pub struct PluginManager {
    subscribers: Vec<String>,
    plugins: Vec<PluginHandle>,
    boots: Vec<Option<BootResponse>>,
    killed: bool,
}

/// The state of a [`PluginManager`].
#[verifier::ext_equal]
pub struct ManagerState {
    /// Who gets the events that plugins send.
    pub subscribers: Set<Seq<char>>,
    /// The plugins, in the order in which they were added.
    pub plugins: Seq<PluginHandle>,
    /// What each plugin that was ever added said of itself when it started, once it
    /// has. A plugin's slot is its index. A copy of a plugin's handle may outlast the
    /// plugin's place in the list, so nothing is taken off again.
    pub boots: Seq<Option<BootResponse>>,
    /// The plugin runtime has been told to end.
    pub killed: bool,
}

impl View for PluginManager {
    type V = ManagerState;

    closed spec fn view(&self) -> ManagerState {
        ManagerState {
            subscribers: ids_of(self.subscribers@).to_set(),
            plugins: self.plugins@,
            boots: self.boots@,
            killed: self.killed,
        }
    }
}

impl ManagerState {
    /// With nobody listening and no plugin.
    pub open spec fn initial() -> ManagerState {
        ManagerState {
            subscribers: Set::empty(),
            plugins: Seq::empty(),
            boots: Seq::empty(),
            killed: false,
        }
    }

    /// Each listed plugin has a slot, and no other listed plugin has it.
    pub open spec fn has_own_slots(self) -> bool {
        &&& forall|i: int|
            0 <= i < self.plugins.len() ==> (#[trigger] self.plugins[i]).slot < self.boots.len()
        &&& forall|i: int, j: int|
            0 <= i < j < self.plugins.len() ==> (#[trigger] self.plugins[i]).slot != (
            #[trigger] self.plugins[j]).slot
    }

    /// With one more subscriber.
    pub open spec fn subscribed(self, rx_id: Seq<char>) -> ManagerState {
        ManagerState { subscribers: self.subscribers.insert(rx_id), ..self }
    }

    /// Without that subscriber.
    pub open spec fn unsubscribed(self, rx_id: Seq<char>) -> ManagerState {
        ManagerState { subscribers: self.subscribers.remove(rx_id), ..self }
    }

    /// With one more plugin, at the end, that has not started.
    pub open spec fn added(self, plugin: PluginHandle) -> ManagerState {
        ManagerState {
            plugins: self.plugins.push(plugin),
            boots: self.boots.push(None),
            ..self
        }
    }

    /// Without the first plugin with that reference id.
    pub open spec fn removed(self, ref_id: Seq<char>) -> ManagerState {
        let i = first_index(self.plugins, has_ref_id(ref_id));
        if i < self.plugins.len() {
            ManagerState { plugins: self.plugins.remove(i), ..self }
        } else {
            self
        }
    }

    /// With what the plugin said when it started.
    pub open spec fn booted(self, plugin: PluginHandle, resp: BootResponse) -> ManagerState {
        if plugin.slot < self.boots.len() {
            ManagerState { boots: self.boots.update(plugin.slot as int, Some(resp)), ..self }
        } else {
            self
        }
    }

    /// What the plugin said of itself when it started, if it has started.
    pub open spec fn info(self, plugin: PluginHandle) -> Option<BootResponse> {
        if plugin.slot < self.boots.len() {
            self.boots[plugin.slot as int]
        } else {
            None
        }
    }

    /// The first plugin with that directory.
    pub open spec fn by_dir(self, dir: Seq<char>) -> Option<PluginHandle> {
        find(self.plugins, has_dir(dir))
    }

    /// The first plugin with that reference id.
    pub open spec fn by_ref_id(self, ref_id: Seq<char>) -> Option<PluginHandle> {
        find(self.plugins, has_ref_id(ref_id))
    }

    /// The first plugin with that name, unless a plugin that has not started
    /// stands before it: what that one is called is not known yet.
    pub open spec fn by_name(self, name: Seq<char>) -> Option<PluginHandle> {
        match find(self.plugins, self.may_be_named(name)) {
            Some(plugin) => if self.info(plugin) is Some {
                Some(plugin)
            } else {
                None
            },
            None => None,
        }
    }

    /// The plugins with this name, and those that have not started.
    pub open spec fn may_be_named(self, name: Seq<char>) -> spec_fn(PluginHandle) -> bool {
        |p: PluginHandle| self.info(p) matches Some(info) ==> info.name@ == name
    }
}

/// The error says that `what` names no plugin.
pub open spec fn is_not_found(error: Error, what: Seq<char>) -> bool {
    error matches Error::PluginNotFoundErr(text) && text@ == what
}

/// A plugin as it is added: from this directory, under this id, with this slot.
pub open spec fn is_new_plugin(
    plugin: PluginHandle,
    dir: Seq<char>,
    ref_id: Seq<char>,
    slot: nat,
) -> bool {
    plugin.dir@ == dir && plugin.ref_id@ == ref_id && plugin.slot == slot
}

/// The payload asks a plugin to start from this directory.
pub open spec fn is_boot_request(payload: InternalEventPayload, dir: Seq<char>) -> bool {
    payload matches InternalEventPayload::BootRequest(req) && req.dir@ == dir
}

/// A plugin that is being started: the request, and the collector of its reply.
#[derive(Debug)]
pub struct Boot {
    /// The plugin.
    pub plugin: PluginHandle,
    /// The request to it.
    pub exchange: Exchange,
    /// What waits for the reply.
    pub collector: ReplyCollector,
}

impl Boot {
    /// `plugin` is asked to start from `dir`.
    pub open spec fn asks(
        self,
        plugin: PluginHandle,
        dir: Seq<char>,
        rx_id: Seq<char>,
        event_id: String,
    ) -> bool {
        &&& self.plugin == plugin
        &&& asks_one(
            self.exchange@,
            self.collector@,
            plugin,
            |payload: InternalEventPayload| is_boot_request(payload, dir),
            rx_id,
            event_id,
        )
    }
}

/// One plugin is asked, with a payload of the given kind.
pub open spec fn asks_one(
    exchange: ExchangeState,
    collector: CollectorState,
    plugin: PluginHandle,
    kind: spec_fn(InternalEventPayload) -> bool,
    rx_id: Seq<char>,
    event_id: String,
) -> bool {
    &&& exchange.rx_id == rx_id
    &&& exchange.sent == 0
    &&& exchange.outbound.len() == 1
    &&& exchange.outbound[0].plugin == plugin
    &&& kind(exchange.outbound[0].event.payload)
    &&& exchange.outbound[0].event == event_to(
        plugin,
        exchange.outbound[0].event.payload,
        None,
        event_id,
    )
    &&& collector == collector_of(seq![event_id])
}

impl PluginManager {
    /// No subscriber is listed twice.
    pub closed spec fn lists_subscribers_once(&self) -> bool {
        ids_of(self.subscribers@).no_duplicates()
    }

    /// No subscriber is listed twice, and each plugin has its own slot.
    pub open spec fn wf(&self) -> bool {
        self.lists_subscribers_once() && self@.has_own_slots()
    }

    /// A manager with nobody listening and no plugin.
    pub fn new() -> (res: PluginManager)
        ensures
            res.wf(),
            res@ == ManagerState::initial(),
    {
        let res = PluginManager {
            subscribers: Vec::new(),
            plugins: Vec::new(),
            boots: Vec::new(),
            killed: false,
        };
        proof {
            assert(ids_of(res.subscribers@) =~= Seq::empty());
            assert(res@.subscribers =~= Set::empty());
            assert(res@.plugins =~= Seq::empty());
            assert(res@.boots =~= Seq::empty());
        }
        res
    }

    /// Finds a subscriber; the index is the number of subscribers where it is
    /// none.
    fn position_of_subscriber(&self, rx_id: &str) -> (res: usize)
        ensures
            res <= self.subscribers@.len(),
            res < self.subscribers@.len() ==> self.subscribers@[res as int]@ == rx_id@,
            self@.subscribers.contains(rx_id@) == (res < self.subscribers@.len()),
    {
        let key = rx_id.to_owned();
        let mut i: usize = 0;
        while i < self.subscribers.len() && self.subscribers[i] != key
            invariant
                i <= self.subscribers@.len(),
                key@ == rx_id@,
                forall|j: int| 0 <= j < i ==> #[trigger] self.subscribers@[j]@ != rx_id@,
            decreases self.subscribers@.len() - i,
        {
            i = i + 1;
        }
        proof {
            let ids = ids_of(self.subscribers@);
            if i < ids.len() {
                assert(ids[i as int] == rx_id@);
            } else if ids.contains(rx_id@) {
                let j = choose|j: int| 0 <= j < ids.len() && ids[j] == rx_id@;
                assert(self.subscribers@[j]@ == rx_id@);
            }
        }
        i
    }

    /// Sends the events of plugins to one more subscriber from now on. `rx_id` is
    /// to be a fresh id; where it is in use already, nothing changes here, and the
    /// old subscriber's place goes to the new one.
    pub fn subscribe(&mut self, rx_id: String)
        requires
            old(self).wf(),
        ensures
            final(self).wf(),
            final(self)@ == old(self)@.subscribed(rx_id@),
    {
        let at = self.position_of_subscriber(rx_id.as_str());
        if at == self.subscribers.len() {
            self.subscribers.push(rx_id);
        }
        proof {
            let before = ids_of(old(self).subscribers@);
            let after = ids_of(self.subscribers@);
            if at == before.len() {
                assert(after =~= before.push(rx_id@));
                assert(!before.contains(rx_id@));
                assert forall|id: Seq<char>| after.contains(id) == (before.contains(id) || id
                    == rx_id@) by {
                    if before.contains(id) {
                        let j = choose|j: int| 0 <= j < before.len() && before[j] == id;
                        assert(after[j] == id);
                    }
                    assert(after[before.len() as int] == rx_id@);
                }
            }
            assert(after.to_set() =~= before.to_set().insert(rx_id@));
            assert(self@.plugins == old(self)@.plugins);
        }
    }

    /// Sends no more events to that subscriber.
    pub fn unsubscribe(&mut self, rx_id: &str)
        requires
            old(self).wf(),
        ensures
            final(self).wf(),
            final(self)@ == old(self)@.unsubscribed(rx_id@),
    {
        let at = self.position_of_subscriber(rx_id);
        if at < self.subscribers.len() {
            self.subscribers.remove(at);
        }
        proof {
            let before = ids_of(old(self).subscribers@);
            let after = ids_of(self.subscribers@);
            if at < before.len() {
                assert(after =~= before.remove(at as int));
                assert(before[at as int] == rx_id@);
                assert forall|id: Seq<char>| after.contains(id) == (before.contains(id) && id
                    != rx_id@) by {
                    if before.contains(id) && id != rx_id@ {
                        let j = choose|j: int| 0 <= j < before.len() && before[j] == id;
                        assert(after[if j < at { j } else { j - 1 }] == id);
                    }
                    if after.contains(id) {
                        let j = choose|j: int| 0 <= j < after.len() && after[j] == id;
                        let k = if j < at { j } else { j + 1 };
                        assert(before[k] == id && k != at);
                    }
                }
            }
            assert(after.to_set() =~= before.to_set().remove(rx_id@));
            assert(self@.plugins == old(self)@.plugins);
        }
    }

    /// What is to be delivered when a plugin sends an event: a copy of it to every
    /// subscriber. A subscriber that cannot take its copy does without; the others
    /// get theirs all the same.
    pub fn forward(&self, event: &InternalEvent) -> (res: Vec<Delivery>)
        requires
            self.wf(),
        ensures
            forwards(self@.subscribers, *event, res@),
    {
        let mut deliveries: Vec<Delivery> = Vec::new();
        let mut i: usize = 0;
        while i < self.subscribers.len()
            invariant
                i <= self.subscribers@.len(),
                deliveries@.len() == i,
                forall|j: int|
                    0 <= j < i ==> (#[trigger] deliveries@[j]).event == *event
                        && deliveries@[j].rx_id == self.subscribers@[j],
            decreases self.subscribers@.len() - i,
        {
            deliveries.push(
                Delivery { rx_id: self.subscribers[i].clone(), event: event.clone() },
            );
            i = i + 1;
        }
        assert(receivers(deliveries@) =~= ids_of(self.subscribers@));
        deliveries
    }

    /// The directories that plugins are to be loaded from: those that come with the
    /// application, then those that were installed. Where the installed ones could
    /// not be read, there are none.
    pub fn list_plugin_dirs(
        &self,
        bundled_plugin_dirs: Vec<String>,
        installed: Result<Vec<InstalledPlugin>, Error>,
    ) -> (res: Vec<String>)
        ensures
            installed matches Ok(plugins) ==> res@ == bundled_plugin_dirs@ + installed_dirs(
                Ok(plugins@),
            ),
            installed is Err ==> res@ == bundled_plugin_dirs@,
    {
        let mut plugin_dirs = bundled_plugin_dirs;
        if let Ok(plugins) = installed {
            let mut i: usize = 0;
            while i < plugins.len()
                invariant
                    i <= plugins@.len(),
                    plugin_dirs@ =~= bundled_plugin_dirs@ + installed_dirs(Ok(plugins@)).take(
                        i as int,
                    ),
                decreases plugins@.len() - i,
            {
                plugin_dirs.push(plugins[i].directory.clone());
                i = i + 1;
            }
            assert(installed_dirs(Ok(plugins@)).take(plugins@.len() as int) =~= installed_dirs(
                Ok(plugins@),
            ));
        }
        plugin_dirs
    }

    /// The first plugin with that reference id.
    pub fn get_plugin_by_ref_id(&self, ref_id: &str) -> (res: Option<PluginHandle>)
        ensures
            res == self@.by_ref_id(ref_id@),
    {
        let at = position_by_ref_id(&self.plugins, ref_id);
        if at < self.plugins.len() {
            Some(self.plugins[at].clone())
        } else {
            None
        }
    }

    /// The first plugin with that directory.
    pub fn get_plugin_by_dir(&self, dir: &str) -> (res: Option<PluginHandle>)
        ensures
            res == self@.by_dir(dir@),
    {
        let at = position_by_dir(&self.plugins, dir);
        if at < self.plugins.len() {
            Some(self.plugins[at].clone())
        } else {
            None
        }
    }

    /// The first plugin with that name. The search ends, without a result, at the
    /// first plugin that has not started.
    pub fn get_plugin_by_name(&self, name: &str) -> (res: Option<PluginHandle>)
        ensures
            res == self@.by_name(name@),
    {
        let key = name.to_owned();
        let mut i: usize = 0;
        while i < self.plugins.len()
            invariant
                i <= self.plugins@.len(),
                key@ == name@,
                forall|j: int| 0 <= j < i ==> !self@.may_be_named(name@)(#[trigger] self.plugins@[j]),
            decreases self.plugins@.len() - i,
        {
            match self.info(&self.plugins[i]) {
                None => {
                    proof {
                        lemma_is_first(self.plugins@, self@.may_be_named(name@), i as int);
                    }
                    return None;
                },
                Some(info) => {
                    if info.name == key {
                        proof {
                            lemma_is_first(self.plugins@, self@.may_be_named(name@), i as int);
                        }
                        return Some(self.plugins[i].clone());
                    }
                },
            }
            i = i + 1;
        }
        proof {
            lemma_is_first(self.plugins@, self@.may_be_named(name@), i as int);
        }
        None
    }

    /// What a plugin said of itself when it started, if it has started. It does not
    /// matter when `plugin` was copied, nor whether the plugin is still listed.
    pub fn info(&self, plugin: &PluginHandle) -> (res: Option<BootResponse>)
        ensures
            res == self@.info(*plugin),
    {
        if plugin.slot < self.boots.len() {
            self.boots[plugin.slot].clone()
        } else {
            None
        }
    }

    /// How many plugins there are.
    pub fn plugin_count(&self) -> (res: usize)
        ensures
            res == self@.plugins.len(),
    {
        self.plugins.len()
    }

    /// Looks up the plugin to uninstall. It is to be terminated, and then given to
    /// [`PluginManager::remove_plugin`] with the outcome.
    pub fn uninstall(&self, dir: &str) -> (res: Result<PluginHandle, Error>)
        ensures
            match self@.by_dir(dir@) {
                Some(plugin) => res == Ok::<PluginHandle, Error>(plugin),
                None => res matches Err(e) && is_not_found(e, dir@),
            },
    {
        match self.get_plugin_by_dir(dir) {
            Some(plugin) => Ok(plugin),
            None => Err(Error::PluginNotFoundErr(dir.to_owned())),
        }
    }

    /// Takes a plugin off the list once it has been terminated. Where that failed,
    /// the plugin stays and the error is passed on.
    pub fn remove_plugin(
        &mut self,
        plugin: &PluginHandle,
        terminated: Result<(), Error>,
    ) -> (res: Result<(), Error>)
        requires
            old(self).wf(),
        ensures
            final(self).wf(),
            res == terminated,
            terminated is Err ==> final(self)@ == old(self)@,
            terminated is Ok ==> final(self)@ == old(self)@.removed(plugin.ref_id@),
    {
        if terminated.is_ok() {
            let pos = position_by_ref_id(&self.plugins, plugin.ref_id.as_str());
            if pos < self.plugins.len() {
                self.plugins.remove(pos);
                assert(self@.plugins == old(self)@.plugins.remove(pos as int));
            }
        }
        terminated
    }

    /// Adds the plugin in `dir` and asks it to start. `connected` says whether the
    /// plugin client is there; without it nothing is added. The ids are to be fresh.
    ///
    /// Where a plugin from the same directory is listed already, it is that one
    /// that is asked. The reply goes to [`PluginManager::finish_boot`].
    pub fn add_plugin_by_dir(
        &mut self,
        dir: &str,
        connected: bool,
        ref_id: String,
        rx_id: String,
        event_id: String,
    ) -> (res: Result<Boot, Error>)
        requires
            old(self).wf(),
        ensures
            final(self).wf(),
            !connected ==> {
                &&& res matches Err(e) && e is ClientNotInitializedErr
                &&& final(self)@ == old(self)@
            },
            connected ==> {
                let plugin = final(self)@.plugins.last();
                &&& is_new_plugin(plugin, dir@, ref_id@, old(self)@.boots.len())
                &&& final(self)@ == old(self)@.added(plugin).subscribed(rx_id@)
                &&& final(self)@.by_dir(dir@) is Some
                &&& res matches Ok(boot)
                &&& boot.asks(final(self)@.by_dir(dir@)->0, dir@, rx_id@, event_id)
            },
    {
        if !connected {
            return Err(Error::ClientNotInitializedErr);
        }
        let plugin = PluginHandle::new(dir, ref_id, self.boots.len());
        let ghost added = plugin;
        self.plugins.push(plugin);
        self.boots.push(None);
        proof {
            assert(self@.plugins == old(self)@.plugins.push(added));
            let pred = has_dir(dir@);
            lemma_first_index(self.plugins@, pred);
            assert(self.plugins@[self.plugins@.len() - 1] == added);
            if first_index(self.plugins@, pred) == self.plugins@.len() {
                assert(!pred(self.plugins@[self.plugins@.len() - 1]));
            }
        }
        self.start_boot(dir, rx_id, event_id)
    }

    /// Asks the first plugin from `dir` to start. The ids are to be fresh.
    pub fn start_boot(&mut self, dir: &str, rx_id: String, event_id: String) -> (res: Result<
        Boot,
        Error,
    >)
        requires
            old(self).wf(),
        ensures
            final(self).wf(),
            match old(self)@.by_dir(dir@) {
                Some(plugin) => {
                    &&& final(self)@ == old(self)@.subscribed(rx_id@)
                    &&& res matches Ok(boot)
                    &&& boot.asks(plugin, dir@, rx_id@, event_id)
                },
                None => {
                    &&& final(self)@ == old(self)@
                    &&& res matches Err(e)
                    &&& is_not_found(e, dir@)
                },
            },
    {
        let plugin = match self.get_plugin_by_dir(dir) {
            Some(plugin) => plugin,
            None => {
                return Err(Error::PluginNotFoundErr(dir.to_owned()));
            },
        };
        let payload = InternalEventPayload::BootRequest(BootRequest { dir: dir.to_owned() });
        let (exchange, collector) = self.send_to_plugin_and_wait(&plugin, &payload, rx_id, event_id);
        Ok(Boot { plugin, exchange, collector })
    }

    /// Takes the reply of a plugin that was asked to start, and keeps what the
    /// plugin says of itself, also where the plugin is no longer listed. `plugin` is to
    /// be one that this manager has made; of any other nothing is kept.
    pub fn finish_boot(
        &mut self,
        plugin: &PluginHandle,
        reply: Result<InternalEvent, Error>,
    ) -> (res: Result<(), Error>)
        requires
            old(self).wf(),
        ensures
            final(self).wf(),
            match reply {
                Err(error) => {
                    &&& res == Err::<(), Error>(error)
                    &&& final(self)@ == old(self)@
                },
                Ok(event) => match event.payload {
                    InternalEventPayload::BootResponse(resp) => {
                        &&& res is Ok
                        &&& final(self)@ == old(self)@.booted(*plugin, resp)
                    },
                    _ => {
                        &&& res matches Err(e) && e is UnknownEventErr
                        &&& final(self)@ == old(self)@
                    },
                },
            },
    {
        let event = match reply {
            Ok(event) => event,
            Err(error) => {
                return Err(error);
            },
        };
        let resp = match event.payload {
            InternalEventPayload::BootResponse(resp) => resp,
            _ => {
                return Err(Error::UnknownEventErr);
            },
        };
        if plugin.slot < self.boots.len() {
            self.boots.set(plugin.slot, Some(resp));
            assert(self@.plugins == old(self)@.plugins);
        }
        Ok(())
    }

    /// Tells the plugin runtime to end. It has [`TERMINATE_GRACE_MILLIS`] to do so.
    pub fn terminate(&mut self)
        requires
            old(self).wf(),
        ensures
            final(self).wf(),
            final(self)@ == (ManagerState { killed: true, ..old(self)@ }),
    {
        self.killed = true;
    }

    /// Whether the plugin runtime has been told to end.
    pub fn is_killed(&self) -> (res: bool)
        ensures
            res == self@.killed,
    {
        self.killed
    }

    /// The answer to an event that a plugin sent: an event for that plugin which
    /// names the one it answers. `event_id` is to be a fresh id.
    pub fn reply(
        &self,
        source_event: &InternalEvent,
        payload: &InternalEventPayload,
        event_id: String,
    ) -> (res: Result<Outbound, Error>)
        ensures
            match self@.by_ref_id(source_event.plugin_ref_id@) {
                Some(plugin) => {
                    &&& res matches Ok(out)
                    &&& out.plugin == plugin
                    &&& out.event == event_to(plugin, *payload, Some(source_event.id), event_id)
                    &&& out.event.id == event_id
                    &&& out.event.plugin_ref_id@ == source_event.plugin_ref_id@
                    &&& out.event.reply_id == Some(source_event.id)
                    &&& out.event.payload == *payload
                },
                None => res matches Err(e) && is_not_found(e, source_event.plugin_ref_id@),
            },
    {
        let reply_id = Some(source_event.id.clone());
        proof {
            lemma_first_index(self.plugins@, has_ref_id(source_event.plugin_ref_id@));
        }
        match self.get_plugin_by_ref_id(source_event.plugin_ref_id.as_str()) {
            Some(plugin) => {
                let event = plugin.build_event_to_send(payload, reply_id, event_id);
                Ok(Outbound { plugin, event })
            },
            None => Err(Error::PluginNotFoundErr(source_event.plugin_ref_id.clone())),
        }
    }

    /// Asks one plugin. The ids are to be fresh; the replies go to
    /// [`PluginManager::close_exchange`].
    pub fn send_to_plugin_and_wait(
        &mut self,
        plugin: &PluginHandle,
        payload: &InternalEventPayload,
        rx_id: String,
        event_id: String,
    ) -> (res: (Exchange, ReplyCollector))
        requires
            old(self).wf(),
        ensures
            final(self).wf(),
            final(self)@ == old(self)@.subscribed(rx_id@),
            asks_one(
                res.0@,
                res.1@,
                *plugin,
                |p: InternalEventPayload| p == *payload,
                rx_id@,
                event_id,
            ),
            res.0@.outbound.len() == 1,
            res.0@.outbound[0].plugin == *plugin,
            res.0@.outbound[0].event.id == event_id,
            res.0@.outbound[0].event.plugin_ref_id == plugin.ref_id,
            res.0@.outbound[0].event.reply_id is None,
            res.0@.outbound[0].event.payload == *payload,
            res.1@.expected == seq![event_id@],
            res.1@.found.len() == 0,
    {
        let mut plugins: Vec<PluginHandle> = Vec::new();
        plugins.push(plugin.clone());
        let mut event_ids: Vec<String> = Vec::new();
        event_ids.push(event_id);
        proof {
            assert(event_ids@ =~= seq![event_id]);
            lemma_is_first(plugins@, has_ref_id(plugin.ref_id@), 0);
        }
        self.send_to_plugins_and_wait(payload, &plugins, rx_id, event_ids)
    }

    /// Asks every plugin. The ids are to be fresh, with one event id for each
    /// plugin; the replies go to [`PluginManager::close_exchange`].
    pub fn send_and_wait(
        &mut self,
        payload: &InternalEventPayload,
        rx_id: String,
        event_ids: Vec<String>,
    ) -> (res: (Exchange, ReplyCollector))
        requires
            old(self).wf(),
            event_ids@.len() == old(self)@.plugins.len(),
        ensures
            final(self).wf(),
            final(self)@ == old(self)@.subscribed(rx_id@),
            res.0@ == exchange_with(*payload, old(self)@.plugins, rx_id@, event_ids@),
            res.1@ == collector_of(event_ids@),
            res.0@.outbound.len() == old(self)@.plugins.len(),
            forall|i: int|
                0 <= i < old(self)@.plugins.len() ==> (#[trigger] res.0@.outbound[i]).event.id == event_ids@[i]
                    && res.0@.outbound[i].event.plugin_ref_id == old(self)@.plugins[i].ref_id
                    && res.0@.outbound[i].event.reply_id is None
                    && res.0@.outbound[i].event.payload == *payload,
    {
        let plugins = self.plugins.clone();
        self.send_to_plugins_and_wait(payload, &plugins, rx_id, event_ids)
    }

    /// Asks each of `plugins`. The subscriber `rx_id` is there before the first
    /// event is sent, so that no reply is missed.
    pub fn send_to_plugins_and_wait(
        &mut self,
        payload: &InternalEventPayload,
        plugins: &Vec<PluginHandle>,
        rx_id: String,
        event_ids: Vec<String>,
    ) -> (res: (Exchange, ReplyCollector))
        requires
            old(self).wf(),
            event_ids@.len() == plugins@.len(),
        ensures
            final(self).wf(),
            final(self)@ == old(self)@.subscribed(rx_id@),
            res.0@ == exchange_with(*payload, plugins@, rx_id@, event_ids@),
            res.1@ == collector_of(event_ids@),
            res.0@.outbound.len() == plugins@.len(),
            forall|i: int|
                0 <= i < plugins@.len() ==> (#[trigger] res.0@.outbound[i]).event.id == event_ids@[i]
                    && res.0@.outbound[i].event.plugin_ref_id == plugins@[i].ref_id
                    && res.0@.outbound[i].event.reply_id is None
                    && res.0@.outbound[i].event.payload == *payload,
    {
        self.subscribe(rx_id.clone());
        open_exchange(payload, plugins, rx_id, event_ids)
    }

    /// Ends an exchange whose events have all been sent: its subscriber goes, and
    /// the replies that were collected are handed on. An exchange that a failed send
    /// ended is not closed; its subscriber stays.
    pub fn close_exchange(&mut self, exchange: Exchange, collector: ReplyCollector) -> (res: Vec<
        InternalEvent,
    >)
        requires
            old(self).wf(),
            exchange@.sent == exchange@.outbound.len(),
        ensures
            final(self).wf(),
            final(self)@ == old(self)@.unsubscribed(exchange@.rx_id),
            res@ == collector@.found,
    {
        self.unsubscribe(exchange.rx_id());
        collector.into_events()
    }
}

} // verus!
