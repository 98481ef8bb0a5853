//! What each step of loading all plugins does, and what is known of the plugins when
//! it is over.

use crate::error::Error;
use crate::events::{BootResponse, InternalEvent, InternalEventPayload};
use crate::initialization::{
    init_step, InitAction, InitEvent, InitPhase, InitState, InitWorld,
};
use crate::laws::{
    distinct_dirs, law_added_stands_last, law_found_by_dir, law_found_by_ref_id,
    law_removed_is_the_first_with_the_id, lemma_find_in_push,
};
use crate::loading_laws::{
    is_finished, is_loading, law_loading_replaces, lemma_find_in_remove, lemma_found_at,
    lemma_slots_after, loads_cleanly, plugins_before, LoadingStep,
};
use crate::manager::ManagerState;
use crate::plugin_handle::{has_dir, has_ref_id, PluginHandle};
use crate::request_laws::law_start_names_the_directory;
use crate::search::{lemma_first_index, lemma_is_first};
use vstd::prelude::*;

verus! {

// One step

/// A loading starts before the first of the directories, which it has as they were
/// given.
pub proof fn law_loading_starts_before_the_first(dirs: Seq<String>)
    ensures
        InitState::start(dirs).dirs == dirs,
        InitState::start(dirs).next == 0,
        InitState::start(dirs).phase is Lookup,
{
}

/// A loading that has gone through all directories stays where it is, whatever it is
/// told.
pub proof fn law_finished_loading_does_nothing(
    before: InitWorld,
    event: InitEvent,
    after: InitWorld,
    action: InitAction,
)
    requires
        init_step(before, event, after, action),
        before.init.next >= before.init.dirs.len(),
    ensures
        after == before,
        action is Done,
{
}

/// An event that does not belong to what is going on changes nothing.
pub proof fn law_event_out_of_turn_does_nothing(
    before: InitWorld,
    event: InitEvent,
    after: InitWorld,
    action: InitAction,
)
    requires
        init_step(before, event, after, action),
        before.init.next < before.init.dirs.len(),
        before.init.phase is Lookup ==> !(event is Ready),
        before.init.phase is Terminating ==> !(event is Terminated),
        before.init.phase is Adding ==> !(event is Prepared),
        before.init.phase is Booting ==> !(event is Booted),
    ensures
        after == before,
        action is Unexpected,
{
}

/// Where a plugin from the directory is listed, the first such plugin is terminated
/// before anything else.
pub proof fn law_listed_plugin_is_terminated_first(
    before: InitWorld,
    after: InitWorld,
    action: InitAction,
    at: int,
)
    requires
        init_step(before, InitEvent::Ready, after, action),
        before.init.next < before.init.dirs.len(),
        before.init.phase is Lookup,
        0 <= at < before.manager.plugins.len(),
        before.manager.plugins[at].dir@ == before.init.dirs[before.init.next as int]@,
        forall|j: int|
            0 <= j < at ==> (#[trigger] before.manager.plugins[j]).dir@
                != before.init.dirs[before.init.next as int]@,
    ensures
        after.manager == before.manager,
        after.init.dirs == before.init.dirs,
        after.init.next == before.init.next,
        after.init.phase == InitPhase::Terminating(before.manager.plugins[at]),
        action == InitAction::Terminate(before.manager.plugins[at]),
{
    let dir = before.init.dirs[before.init.next as int]@;
    assert forall|j: int| 0 <= j < at implies !has_dir(dir)(
        #[trigger] before.manager.plugins[j],
    ) by {
        assert(before.manager.plugins[j].dir@ != dir);
    }
    lemma_is_first(before.manager.plugins, has_dir(dir), at);
}

/// Where no plugin from the directory is listed, one is added at once.
pub proof fn law_unlisted_plugin_is_added_at_once(
    before: InitWorld,
    after: InitWorld,
    action: InitAction,
)
    requires
        init_step(before, InitEvent::Ready, after, action),
        before.init.next < before.init.dirs.len(),
        before.init.phase is Lookup,
        forall|j: int|
            0 <= j < before.manager.plugins.len() ==> (#[trigger] before.manager.plugins[j]).dir@
                != before.init.dirs[before.init.next as int]@,
    ensures
        after.manager == before.manager,
        after.init.dirs == before.init.dirs,
        after.init.next == before.init.next,
        after.init.phase is Adding,
        action == InitAction::Prepare(before.init.dirs[before.init.next as int]),
{
    law_found_by_dir(before.manager, before.init.dirs[before.init.next as int]@);
}

/// A plugin that was terminated is off the list, and no other is: the first one with
/// its id goes. One that could not be terminated stays. Either way the plugin from the
/// same directory is added next.
pub proof fn law_terminated_plugin_is_off_the_list(
    before: InitWorld,
    plugin: PluginHandle,
    outcome: Result<(), Error>,
    after: InitWorld,
    action: InitAction,
    at: int,
)
    requires
        init_step(before, InitEvent::Terminated(outcome), after, action),
        before.init.next < before.init.dirs.len(),
        before.init.phase == InitPhase::Terminating(plugin),
        0 <= at < before.manager.plugins.len(),
        before.manager.plugins[at].ref_id@ == plugin.ref_id@,
        forall|j: int|
            0 <= j < at ==> (#[trigger] before.manager.plugins[j]).ref_id@ != plugin.ref_id@,
    ensures
        outcome is Err ==> after.manager == before.manager,
        outcome is Ok ==> after.manager.plugins == before.manager.plugins.remove(at),
        after.manager.subscribers == before.manager.subscribers,
        after.manager.boots == before.manager.boots,
        after.manager.killed == before.manager.killed,
        after.init.dirs == before.init.dirs,
        after.init.next == before.init.next,
        after.init.phase is Adding,
        action == InitAction::Prepare(before.init.dirs[before.init.next as int]),
{
    law_removed_is_the_first_with_the_id(before.manager, plugin.ref_id@, at);
    if outcome is Ok {
        assert(after.manager.plugins =~= before.manager.plugins.remove(at));
    }
}

/// A plugin that left the list while it was being terminated takes no other with it.
pub proof fn law_plugin_that_is_gone_takes_no_other(
    before: InitWorld,
    plugin: PluginHandle,
    outcome: Result<(), Error>,
    after: InitWorld,
    action: InitAction,
)
    requires
        init_step(before, InitEvent::Terminated(outcome), after, action),
        before.init.next < before.init.dirs.len(),
        before.init.phase == InitPhase::Terminating(plugin),
        forall|j: int|
            0 <= j < before.manager.plugins.len() ==> (#[trigger] before.manager.plugins[j]).ref_id@
                != plugin.ref_id@,
    ensures
        after.manager == before.manager,
        after.init.phase is Adding,
{
    law_found_by_ref_id(before.manager, plugin.ref_id@);
}

/// With the plugin client there, a plugin from the directory, under the id, that has
/// not started, stands at the end of the list, and somebody waits for the reply. The
/// first plugin from the directory is sent one event, that asks it to start from there.
pub proof fn law_added_plugin_is_asked_to_start(
    before: InitWorld,
    ref_id: String,
    rx_id: String,
    event_id: String,
    after: InitWorld,
    action: InitAction,
)
    requires
        init_step(
            before,
            InitEvent::Prepared { connected: true, ref_id, rx_id, event_id },
            after,
            action,
        ),
        before.init.next < before.init.dirs.len(),
        before.init.phase is Adding,
    ensures
        ({
            let dir = before.init.dirs[before.init.next as int]@;
            let was = before.manager.plugins;
            let now = after.manager.plugins;
            &&& now.len() == was.len() + 1
            &&& forall|i: int| 0 <= i < was.len() ==> #[trigger] now[i] == was[i]
            &&& now.last().dir@ == dir
            &&& now.last().ref_id@ == ref_id@
            &&& after.manager.info(now.last()) is None
            &&& after.manager.boots == before.manager.boots.push(None)
            &&& after.manager.killed == before.manager.killed
            &&& forall|id: Seq<char>| #[trigger]
                after.manager.subscribers.contains(id) <==> before.manager.subscribers.contains(id)
                    || id == rx_id@
            &&& after.init.dirs == before.init.dirs
            &&& after.init.next == before.init.next
            &&& exists|k: int|
                #![trigger now[k]]
                0 <= k < now.len() && now[k].dir@ == dir && (forall|j: int|
                    0 <= j < k ==> (#[trigger] now[j]).dir@ != dir) && after.init.phase
                    == InitPhase::Booting(now[k]) && (action matches InitAction::Boot(boot)
                    && boot.plugin == now[k] && boot.exchange@.rx_id == rx_id@
                    && boot.exchange@.sent == 0 && boot.exchange@.outbound.len() == 1
                    && boot.exchange@.outbound[0].plugin == now[k]
                    && boot.exchange@.outbound[0].event.id == event_id
                    && boot.exchange@.outbound[0].event.plugin_ref_id == now[k].ref_id
                    && boot.exchange@.outbound[0].event.reply_id is None && (
                boot.exchange@.outbound[0].event.payload matches InternalEventPayload::BootRequest(
                    req,
                ) && req.dir@ == dir) && boot.collector@.expected == seq![event_id@]
                    && boot.collector@.found.len() == 0)
        }),
{
    let dir = before.init.dirs[before.init.next as int]@;
    let now = after.manager.plugins;
    law_added_stands_last(before.manager, now.last());
    law_found_by_dir(after.manager, dir);
    let asked = after.manager.by_dir(dir)->0;
    let k = choose|k: int|
        #![trigger now[k]]
        0 <= k < now.len() && now[k] == asked && asked.dir@ == dir && forall|j: int|
            0 <= j < k ==> (#[trigger] now[j]).dir@ != dir;
    if let InitAction::Boot(boot) = action {
        law_start_names_the_directory(boot, asked, dir, rx_id@, event_id);
    }
    assert(now[k].dir@ == dir);
}

/// Without the plugin client nothing is added, and the directory is passed over.
pub proof fn law_directory_is_passed_over_without_client(
    before: InitWorld,
    ref_id: String,
    rx_id: String,
    event_id: String,
    after: InitWorld,
    action: InitAction,
)
    requires
        init_step(
            before,
            InitEvent::Prepared { connected: false, ref_id, rx_id, event_id },
            after,
            action,
        ),
        before.init.next < before.init.dirs.len(),
        before.init.phase is Adding,
    ensures
        after.manager == before.manager,
        after.init.dirs == before.init.dirs,
        after.init.next == before.init.next + 1,
        after.init.phase is Lookup,
        action == (InitAction::Skip {
            dir: before.init.dirs[before.init.next as int],
            error: Error::ClientNotInitializedErr,
        }),
{
}

/// What a plugin says of itself when it starts is what is known of it from then on,
/// name and body, of every copy of its handle; of the other plugins nothing else is
/// known than before.
pub proof fn law_started_plugin_is_known_by_what_it_says(
    before: InitWorld,
    plugin: PluginHandle,
    reply: InternalEvent,
    resp: BootResponse,
    after: InitWorld,
    action: InitAction,
    other: PluginHandle,
)
    requires
        init_step(before, InitEvent::Booted(Ok(reply)), after, action),
        before.init.next < before.init.dirs.len(),
        before.init.phase == InitPhase::Booting(plugin),
        reply.payload == InternalEventPayload::BootResponse(resp),
        plugin.slot < before.manager.boots.len(),
    ensures
        after.manager.info(plugin) == Some(resp),
        other.slot == plugin.slot ==> after.manager.info(other) == Some(resp),
        other.slot != plugin.slot ==> after.manager.info(other) == before.manager.info(other),
        after.manager.boots == before.manager.boots.update(plugin.slot as int, Some(resp)),
        after.manager.plugins == before.manager.plugins,
        after.manager.subscribers == before.manager.subscribers,
        after.manager.killed == before.manager.killed,
        after.init.dirs == before.init.dirs,
        after.init.next == before.init.next + 1,
        after.init.phase is Lookup,
        action is Loaded,
{
}

/// A plugin that starts under a name that no plugin before it in the list has, where
/// those have all started, is found under that name.
pub proof fn law_started_plugin_is_found_under_its_name(
    before: InitWorld,
    at: int,
    reply: InternalEvent,
    resp: BootResponse,
    after: InitWorld,
    action: InitAction,
)
    requires
        0 <= at < before.manager.plugins.len(),
        before.manager.has_own_slots(),
        init_step(before, InitEvent::Booted(Ok(reply)), after, action),
        before.init.next < before.init.dirs.len(),
        before.init.phase == InitPhase::Booting(before.manager.plugins[at]),
        reply.payload == InternalEventPayload::BootResponse(resp),
        forall|j: int|
            #![trigger before.manager.plugins[j]]
            0 <= j < at ==> (before.manager.info(before.manager.plugins[j]) matches Some(info)
                && info.name@ != resp.name@),
    ensures
        after.manager.by_name(resp.name@) == Some(before.manager.plugins[at]),
{
    let plugins = before.manager.plugins;
    let pred = after.manager.may_be_named(resp.name@);
    assert forall|j: int| 0 <= j < at implies !pred(#[trigger] after.manager.plugins[j]) by {
        assert(after.manager.plugins[j] == plugins[j]);
        assert(plugins[j].slot != plugins[at].slot);
        assert(before.manager.info(plugins[j]) matches Some(info) && info.name@ != resp.name@);
    }
    lemma_is_first(after.manager.plugins, pred, at);
}

/// A start that failed, or that was answered with something else, changes nothing in
/// the manager. The directory is passed over, with the error.
pub proof fn law_failed_start_is_passed_over(
    before: InitWorld,
    plugin: PluginHandle,
    reply: Result<InternalEvent, Error>,
    after: InitWorld,
    action: InitAction,
)
    requires
        init_step(before, InitEvent::Booted(reply), after, action),
        before.init.next < before.init.dirs.len(),
        before.init.phase == InitPhase::Booting(plugin),
        reply matches Ok(event) ==> !(event.payload is BootResponse),
    ensures
        after.manager == before.manager,
        after.init.dirs == before.init.dirs,
        after.init.next == before.init.next + 1,
        after.init.phase is Lookup,
        action == (InitAction::Skip {
            dir: before.init.dirs[before.init.next as int],
            error: match reply {
                Err(error) => error,
                Ok(_) => Error::UnknownEventErr,
            },
        }),
{
}

// Whole loadings

/// In this step the plugin that was being started from the directory said this of
/// itself.
pub open spec fn is_answer(step: LoadingStep, dir: Seq<char>, resp: BootResponse) -> bool {
    &&& step.before.init.next < step.before.init.dirs.len()
    &&& step.before.init.dirs[step.before.init.next as int]@ == dir
    &&& step.before.init.phase is Booting
    &&& step.event matches InitEvent::Booted(reply)
    &&& reply matches Ok(event)
    &&& event.payload == InternalEventPayload::BootResponse(resp)
}

/// Among the first `n` steps, this is the last answer for the directory.
pub open spec fn is_last_answer(
    steps: Seq<LoadingStep>,
    n: int,
    dir: Seq<char>,
    resp: BootResponse,
) -> bool {
    exists|i: int|
        0 <= i < n && #[trigger] is_answer(steps[i], dir, resp) && forall|j: int, r: BootResponse|
            i < j < n ==> !#[trigger] is_answer(steps[j], dir, r)
}

/// The plugin from the directory is known by this.
pub open spec fn is_known_by(manager: ManagerState, dir: Seq<char>, resp: BootResponse) -> bool {
    manager.by_dir(dir) matches Some(plugin) && manager.info(plugin) == Some(resp)
}

/// The plugin from the directory is known by exactly what came in last for the directory
/// in the first `n` steps.
pub open spec fn is_known_by_last_answer(
    steps: Seq<LoadingStep>,
    n: int,
    manager: ManagerState,
    dir: Seq<char>,
) -> bool {
    exists|resp: BootResponse| #[trigger]
        is_known_by(manager, dir, resp) && is_last_answer(steps, n, dir, resp)
}

/// After the first `n` steps, each directory that is done is known by the last answer
/// for it, but for the one at hand, whose plugin may be about to be replaced.
spec fn known_so_far(steps: Seq<LoadingStep>, n: int) -> bool {
    let world = steps[n - 1].after;
    &&& loads_cleanly(world)
    &&& world.manager.has_own_slots()
    &&& world.init.next <= world.init.dirs.len()
    &&& forall|k: int|
        #![trigger world.init.dirs[k]]
        0 <= k < world.init.next ==> {
            ||| is_known_by_last_answer(steps, n, world.manager, world.init.dirs[k]@)
            ||| !world.init.is_done() && !(world.init.phase is Lookup) && world.init.dirs[k]@
                == world.init.dir()
        }
}

/// A step leaves what is known of the plugins from other directories as it was.
proof fn lemma_others_stay_known(step: LoadingStep, dir: Seq<char>, resp: BootResponse)
    requires
        init_step(step.before, step.event, step.after, step.action),
        step.terminates(),
        step.removes_its_own(),
        loads_cleanly(step.before),
        step.before.manager.has_own_slots(),
        step.before.init.is_done() || !step.before.init.expects(step.event)
            || step.before.init.phase is Lookup || dir != step.before.init.dir(),
        is_known_by(step.before.manager, dir, resp),
    ensures
        is_known_by(step.after.manager, dir, resp),
{
    let before = step.before;
    let after = step.after;
    lemma_first_index(before.manager.plugins, has_dir(dir));
    if !before.init.is_done() && before.init.expects(step.event) {
        match (before.init.phase, step.event) {
            (InitPhase::Terminating(plugin), InitEvent::Terminated(_)) => {
                let at = lemma_found_at(before.manager, before.init.dir(), plugin);
                lemma_find_in_remove(before.manager.plugins, at, has_dir(dir));
            },
            (InitPhase::Adding, InitEvent::Prepared { .. }) => {
                let plugin = after.manager.plugins.last();
                lemma_find_in_push(before.manager.plugins, plugin, has_dir(dir));
            },
            (InitPhase::Booting(plugin), InitEvent::Booted(_)) => {
                lemma_first_index(before.manager.plugins, has_dir(before.init.dir()));
                let known = before.manager.by_dir(dir)->0;
                assert(known.slot != plugin.slot);
                assert(after.manager.plugins == before.manager.plugins);
            },
            _ => {},
        }
    }
}

/// The last answer stays the last one while no other comes.
proof fn lemma_last_answer_stays(
    steps: Seq<LoadingStep>,
    n: int,
    dir: Seq<char>,
    resp: BootResponse,
)
    requires
        0 < n <= steps.len(),
        is_last_answer(steps, n - 1, dir, resp),
        forall|r: BootResponse| !#[trigger] is_answer(steps[n - 1], dir, r),
    ensures
        is_last_answer(steps, n, dir, resp),
{
    let i = choose|i: int|
        0 <= i < n - 1 && #[trigger] is_answer(steps[i], dir, resp) && forall|
            j: int,
            r: BootResponse,
        |
            i < j < n - 1 ==> !#[trigger] is_answer(steps[j], dir, r);
    assert(is_answer(steps[i], dir, resp));
    assert forall|j: int, r: BootResponse| i < j < n implies !#[trigger] is_answer(
        steps[j],
        dir,
        r,
    ) by {}
}

/// What is known after the first `n` steps.
proof fn lemma_known_until(steps: Seq<LoadingStep>, dirs: Seq<String>, n: int)
    requires
        is_loading(steps, dirs),
        steps[0].before.manager.has_own_slots(),
        distinct_dirs(plugins_before(steps)),
        forall|i: int|
            0 <= i < steps.len() ==> (#[trigger] steps[i]).terminates()
                && steps[i].removes_its_own() && steps[i].has_client() && steps[i].starts(),
        0 < n <= steps.len(),
    ensures
        known_so_far(steps, n),
        steps[n - 1].after.init.dirs == dirs,
    decreases n,
{
    let step = steps[n - 1];
    let before = step.before;
    let after = step.after;
    if n > 1 {
        lemma_known_until(steps, dirs, n - 1);
        assert(step.goes_on_from(steps[n - 2]));
    }
    assert(before.init.dirs == dirs);
    assert(loads_cleanly(before));
    law_loading_replaces(before, step.event, after, step.action);
    lemma_slots_after(step);
    assert(after.init.dirs == dirs);
    assert forall|k: int| #![trigger dirs[k]] 0 <= k < after.init.next implies {
        ||| is_known_by_last_answer(steps, n, after.manager, dirs[k]@)
        ||| !after.init.is_done() && !(after.init.phase is Lookup) && dirs[k]@ == after.init.dir()
    } by {
        let dir = dirs[k]@;
        let moves = !before.init.is_done() && before.init.expects(step.event);
        if moves && before.init.phase is Booting && dir == before.init.dir() {
            // The plugin from this directory has just answered
            let plugin = before.init.phase->Booting_0;
            let resp = step.event->Booted_0->Ok_0.payload->BootResponse_0;
            lemma_first_index(before.manager.plugins, has_dir(dir));
            assert(is_known_by(after.manager, dir, resp));
            assert(is_answer(steps[n - 1], dir, resp));
            assert(is_last_answer(steps, n, dir, resp));
        } else if !(!after.init.is_done() && !(after.init.phase is Lookup) && dir
            == after.init.dir()) {
            // Nothing has changed for this directory
            assert(k < before.init.next);
            let last = steps[n - 2].after;
            assert(last.init.dirs[k]@ == dir);
            let resp = choose|resp: BootResponse| #[trigger]
                is_known_by(last.manager, dir, resp) && is_last_answer(steps, n - 1, dir, resp);
            assert(is_known_by(before.manager, dir, resp));
            lemma_others_stay_known(step, dir, resp);
            assert forall|r: BootResponse| !#[trigger] is_answer(steps[n - 1], dir, r) by {}
            lemma_last_answer_stays(steps, n, dir, resp);
        }
    }
}

/// Where every plugin that is asked to start says what it is, each directory has, in the
/// end, a plugin that is known by exactly what came in last for that directory.
pub proof fn law_loading_keeps_what_each_plugin_says(steps: Seq<LoadingStep>, dirs: Seq<String>)
    requires
        is_loading(steps, dirs),
        steps[0].before.manager.has_own_slots(),
        distinct_dirs(plugins_before(steps)),
        forall|i: int|
            0 <= i < steps.len() ==> (#[trigger] steps[i]).terminates()
                && steps[i].removes_its_own() && steps[i].has_client() && steps[i].starts(),
    ensures
        is_finished(steps) ==> forall|k: int|
            #![trigger dirs[k]]
            0 <= k < dirs.len() ==> is_known_by_last_answer(
                steps,
                steps.len() as int,
                steps.last().after.manager,
                dirs[k]@,
            ),
{
    lemma_known_until(steps, dirs, steps.len() as int);
}

} // verus!
