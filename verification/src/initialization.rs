//! Loading all plugins, one directory after the other.

use crate::error::Error;
use crate::events::{InternalEvent, InternalEventPayload};
use crate::manager::{is_new_plugin, Boot, ManagerState, PluginManager};
use crate::plugin_handle::PluginHandle;
use vstd::prelude::*;

verus! {

/// What is going on with the directory at hand.
#[derive(Debug, PartialEq, Eq)]
pub enum InitPhase {
    /// It is to be seen whether a plugin from there is listed.
    Lookup,
    /// That plugin is being terminated.
    Terminating(PluginHandle),
    /// The plugin from there is to be added.
    Adding,
    /// This plugin is being started.
    Booting(PluginHandle),
}

/// What happened since the last step.
#[derive(Debug, PartialEq, Eq)]
pub enum InitEvent {
    /// Nothing that matters.
    Ready,
    /// The termination of a plugin ended like this.
    Terminated(Result<(), Error>),
    /// Whether the plugin client is there, and fresh ids for a new plugin.
    Prepared { connected: bool, ref_id: String, rx_id: String, event_id: String },
    /// The request to start ended like this.
    Booted(Result<InternalEvent, Error>),
}

/// What is to be done before the next step.
#[derive(Debug)]
pub enum InitAction {
    /// Terminate this plugin, and say how that ended.
    Terminate(PluginHandle),
    /// To load the plugin from this directory, see whether the plugin client is there,
    /// and get fresh ids.
    Prepare(String),
    /// Send the request to start, and wait for the reply.
    Boot(Boot),
    /// No plugin was loaded from this directory, for this reason; go on.
    Skip { dir: String, error: Error },
    /// The plugin was loaded; go on.
    Loaded,
    /// All directories have been gone through.
    Done,
    /// The event does not belong to the phase; nothing was done.
    Unexpected,
}

/// Where the loading of all plugins stands.
#[derive(Debug)]
pub struct Initialization {
    dirs: Vec<String>,
    next: usize,
    phase: InitPhase,
}

/// The state of an [`Initialization`].
pub struct InitState {
    /// The directories to load plugins from.
    pub dirs: Seq<String>,
    /// How many of them are done.
    pub next: nat,
    /// What is going on with the next one.
    pub phase: InitPhase,
}

impl View for Initialization {
    type V = InitState;

    closed spec fn view(&self) -> InitState {
        InitState { dirs: self.dirs@, next: self.next as nat, phase: self.phase }
    }
}

impl InitState {
    /// Before the first directory.
    pub open spec fn start(dirs: Seq<String>) -> InitState {
        InitState { dirs, next: 0, phase: InitPhase::Lookup }
    }

    /// All directories have been gone through.
    pub open spec fn is_done(self) -> bool {
        self.next >= self.dirs.len()
    }

    /// The directory at hand.
    pub open spec fn dir(self) -> Seq<char> {
        self.dirs[self.next as int]@
    }

    /// The plugin from the directory at hand is next.
    pub open spec fn prepare(self) -> InitAction {
        InitAction::Prepare(self.dirs[self.next as int])
    }

    /// The directory at hand is passed over.
    pub open spec fn skip(self, error: Error) -> InitAction {
        InitAction::Skip { dir: self.dirs[self.next as int], error }
    }

    /// In another phase of the same directory.
    pub open spec fn with_phase(self, phase: InitPhase) -> InitState {
        InitState { phase, ..self }
    }

    /// At the next directory.
    pub open spec fn advanced(self) -> InitState {
        InitState { next: self.next + 1, phase: InitPhase::Lookup, ..self }
    }

    /// The event is the one that the phase waits for.
    pub open spec fn expects(self, event: InitEvent) -> bool {
        match self.phase {
            InitPhase::Lookup => event is Ready,
            InitPhase::Terminating(_) => event is Terminated,
            InitPhase::Adding => event is Prepared,
            InitPhase::Booting(_) => event is Booted,
        }
    }
}

/// Where everything stands at one moment.
pub struct InitWorld {
    /// The loading of the plugins.
    pub init: InitState,
    /// The manager.
    pub manager: ManagerState,
}

/// A listed plugin from the directory is to be terminated first.
pub open spec fn lookup_step(before: InitWorld, after: InitWorld, action: InitAction) -> bool {
    &&& after.manager == before.manager
    &&& match before.manager.by_dir(before.init.dir()) {
        Some(plugin) => {
            &&& after.init == before.init.with_phase(InitPhase::Terminating(plugin))
            &&& action == InitAction::Terminate(plugin)
        },
        None => {
            &&& after.init == before.init.with_phase(InitPhase::Adding)
            &&& action == before.init.prepare()
        },
    }
}

/// The terminated plugin is removed; one that could not be terminated stays, and
/// the loading goes on.
pub open spec fn terminated_step(
    before: InitWorld,
    plugin: PluginHandle,
    terminated: Result<(), Error>,
    after: InitWorld,
    action: InitAction,
) -> bool {
    &&& after.init == before.init.with_phase(InitPhase::Adding)
    &&& action == before.init.prepare()
    &&& match terminated {
        Ok(_) => after.manager == before.manager.removed(plugin.ref_id@),
        Err(_) => after.manager == before.manager,
    }
}

/// The plugin is added and asked to start; without the plugin client, the directory
/// is skipped.
pub open spec fn prepared_step(
    before: InitWorld,
    connected: bool,
    ref_id: String,
    rx_id: String,
    event_id: String,
    after: InitWorld,
    action: InitAction,
) -> bool {
    if connected {
        let plugin = after.manager.plugins.last();
        let dir = before.init.dir();
        &&& is_new_plugin(plugin, dir, ref_id@, before.manager.boots.len())
        &&& after.manager == before.manager.added(plugin).subscribed(rx_id@)
        &&& after.manager.by_dir(dir) is Some
        &&& after.init == before.init.with_phase(
            InitPhase::Booting(after.manager.by_dir(dir)->0),
        )
        &&& action matches InitAction::Boot(boot)
        &&& boot.asks(after.manager.by_dir(dir)->0, dir, rx_id@, event_id)
    } else {
        &&& after.manager == before.manager
        &&& after.init == before.init.advanced()
        &&& action == before.init.skip(Error::ClientNotInitializedErr)
    }
}

/// What the plugin says of itself is kept; any other outcome is passed over.
pub open spec fn booted_step(
    before: InitWorld,
    plugin: PluginHandle,
    reply: Result<InternalEvent, Error>,
    after: InitWorld,
    action: InitAction,
) -> bool {
    &&& after.init == before.init.advanced()
    &&& match reply {
        Err(error) => after.manager == before.manager && action == before.init.skip(error),
        Ok(event) => match event.payload {
            InternalEventPayload::BootResponse(resp) => {
                &&& after.manager == before.manager.booted(plugin, resp)
                &&& action is Loaded
            },
            _ => {
                &&& after.manager == before.manager
                &&& action == before.init.skip(Error::UnknownEventErr)
            },
        },
    }
}

/// What one step does.
pub open spec fn init_step(
    before: InitWorld,
    event: InitEvent,
    after: InitWorld,
    action: InitAction,
) -> bool {
    if before.init.is_done() {
        after == before && action is Done
    } else {
        match (before.init.phase, event) {
            (InitPhase::Lookup, InitEvent::Ready) => lookup_step(before, after, action),
            (
                InitPhase::Terminating(plugin),
                InitEvent::Terminated(terminated),
            ) => terminated_step(before, plugin, terminated, after, action),
            (
                InitPhase::Adding,
                InitEvent::Prepared { connected, ref_id, rx_id, event_id },
            ) => prepared_step(before, connected, ref_id, rx_id, event_id, after, action),
            (InitPhase::Booting(plugin), InitEvent::Booted(reply)) => booted_step(
                before,
                plugin,
                reply,
                after,
                action,
            ),
            _ => after == before && action is Unexpected,
        }
    }
}

impl PluginManager {
    /// Starts to load the plugins from `dirs`. A plugin that is listed already is
    /// removed and loaded anew.
    pub fn initialize_all_plugins(&self, dirs: Vec<String>) -> (res: Initialization)
        ensures
            res@ == InitState::start(dirs@),
    {
        Initialization { dirs, next: 0, phase: InitPhase::Lookup }
    }
}

impl Initialization {
    /// Goes one step on. No failure ends the loading: a plugin that cannot be
    /// terminated stays, one that cannot be loaded is skipped, and the next
    /// directory follows.
    pub fn step(&mut self, manager: &mut PluginManager, event: InitEvent) -> (res: InitAction)
        requires
            old(manager).wf(),
        ensures
            final(manager).wf(),
            init_step(
                (InitWorld { init: old(self)@, manager: old(manager)@ }),
                event,
                (InitWorld { init: final(self)@, manager: final(manager)@ }),
                res,
            ),
    {
        if self.next >= self.dirs.len() {
            return InitAction::Done;
        }
        let dir = self.dirs[self.next].clone();
        match event {
            InitEvent::Ready => {
                if let InitPhase::Lookup = &self.phase {
                    match manager.get_plugin_by_dir(dir.as_str()) {
                        Some(plugin) => {
                            self.phase = InitPhase::Terminating(plugin.clone());
                            InitAction::Terminate(plugin)
                        },
                        None => {
                            self.phase = InitPhase::Adding;
                            InitAction::Prepare(dir)
                        },
                    }
                } else {
                    InitAction::Unexpected
                }
            },
            InitEvent::Terminated(terminated) => {
                if let InitPhase::Terminating(plugin) = &self.phase {
                    let _ = manager.remove_plugin(plugin, terminated);
                    self.phase = InitPhase::Adding;
                    InitAction::Prepare(dir)
                } else {
                    InitAction::Unexpected
                }
            },
            InitEvent::Prepared { connected, ref_id, rx_id, event_id } => {
                if let InitPhase::Adding = &self.phase {
                    match manager.add_plugin_by_dir(
                        dir.as_str(),
                        connected,
                        ref_id,
                        rx_id,
                        event_id,
                    ) {
                        Ok(boot) => {
                            self.phase = InitPhase::Booting(boot.plugin.clone());
                            InitAction::Boot(boot)
                        },
                        Err(error) => {
                            self.advance();
                            InitAction::Skip { dir, error }
                        },
                    }
                } else {
                    InitAction::Unexpected
                }
            },
            InitEvent::Booted(reply) => {
                if let InitPhase::Booting(plugin) = &self.phase {
                    let booted = manager.finish_boot(plugin, reply);
                    self.advance();
                    match booted {
                        Ok(_) => InitAction::Loaded,
                        Err(error) => InitAction::Skip { dir, error },
                    }
                } else {
                    InitAction::Unexpected
                }
            },
        }
    }

    /// Goes to the next directory.
    fn advance(&mut self)
        requires
            !old(self)@.is_done(),
        ensures
            final(self)@ == old(self)@.advanced(),
    {
        assert(self.next < self.dirs.len());
        self.next = self.next + 1;
        self.phase = InitPhase::Lookup;
    }
}

} // verus!
