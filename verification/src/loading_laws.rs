//! What holds of loading all plugins.

use crate::filtering::{
    lemma_filter_all, lemma_filter_is_remove, lemma_filter_map, lemma_filter_push,
    lemma_filter_remove, lemma_filter_twice,
};
use crate::initialization::{
    init_step, InitAction, InitEvent, InitPhase, InitState, InitWorld,
};
use crate::laws::{
    distinct_dirs, distinct_ref_ids, law_added_is_found, law_added_keeps_ref_ids_distinct,
    law_removed_keeps_ref_ids_distinct, lemma_find_in_push, lemma_none_found,
};
use crate::manager::ManagerState;
use crate::plugin_handle::{has_dir, has_ref_id, PluginHandle};
use crate::search::{find, first_index, lemma_first_index, lemma_is_first};
use vstd::prelude::*;

verus! {

// One step

/// How many steps are left at most.
pub open spec fn steps_left(init: InitState) -> int {
    4 * (init.dirs.len() - init.next) + match init.phase {
        InitPhase::Lookup => 3int,
        InitPhase::Terminating(_) => 2int,
        InitPhase::Adding => 1int,
        InitPhase::Booting(_) => 0int,
    }
}

/// Each step with the event that it waits for brings the loading nearer to its end,
/// whatever failed, and the directories are taken in their order.
pub proof fn law_loading_goes_on(
    before: InitWorld,
    event: InitEvent,
    after: InitWorld,
    action: InitAction,
)
    requires
        init_step(before, event, after, action),
        !before.init.is_done(),
        before.init.expects(event),
    ensures
        0 <= steps_left(after.init) < steps_left(before.init),
        after.init.dirs == before.init.dirs,
        after.init.next == before.init.next || after.init.next == before.init.next + 1,
        !(action is Unexpected),
        !(action is Done),
{
}

/// Each directory stands for one plugin, a plugin is added only where none from its
/// directory is left, and the plugin that is started is the one from the directory at
/// hand.
pub open spec fn loads_cleanly(world: InitWorld) -> bool {
    &&& distinct_dirs(world.manager.plugins)
    &&& !world.init.is_done() ==> match world.init.phase {
        InitPhase::Lookup => true,
        InitPhase::Terminating(plugin) => world.manager.by_dir(world.init.dir()) == Some(plugin),
        InitPhase::Adding => world.manager.by_dir(world.init.dir()) is None,
        InitPhase::Booting(plugin) => world.manager.by_dir(world.init.dir()) == Some(plugin),
    }
}

/// If a terminated plugin is to be removed, its reference id finds that plugin, and not
/// another one with the same id.
pub open spec fn removes_its_own(before: InitWorld, event: InitEvent) -> bool {
    before.init.phase matches InitPhase::Terminating(plugin) ==> event is Terminated
        ==> before.manager.by_ref_id(plugin.ref_id@) == Some(plugin)
}

/// Where directories stand for one plugin each, the plugin that is found by its
/// directory and by its id has one place in the list.
pub(crate) proof fn lemma_found_at(state: ManagerState, dir: Seq<char>, plugin: PluginHandle) -> (at: int)
    requires
        distinct_dirs(state.plugins),
        state.by_dir(dir) == Some(plugin),
        state.by_ref_id(plugin.ref_id@) == Some(plugin),
    ensures
        0 <= at < state.plugins.len(),
        state.plugins[at] == plugin,
        plugin.dir@ == dir,
        at == first_index(state.plugins, has_ref_id(plugin.ref_id@)),
        state.removed(plugin.ref_id@).plugins == state.plugins.remove(at),
{
    let at = first_index(state.plugins, has_ref_id(plugin.ref_id@));
    lemma_first_index(state.plugins, has_dir(dir));
    lemma_first_index(state.plugins, has_ref_id(plugin.ref_id@));
    at
}

/// Loading the plugins again replaces them: where no termination fails and each removal
/// takes the plugin that it is meant for, no directory ever has two plugins. A plugin
/// that cannot be terminated stays beside the one that is loaded from the same
/// directory.
pub proof fn law_loading_replaces(
    before: InitWorld,
    event: InitEvent,
    after: InitWorld,
    action: InitAction,
)
    requires
        init_step(before, event, after, action),
        loads_cleanly(before),
        !(event matches InitEvent::Terminated(outcome) && outcome is Err),
        removes_its_own(before, event),
    ensures
        loads_cleanly(after),
        action matches InitAction::Boot(boot) ==> boot.plugin == after.manager.plugins.last(),
{
    let dir = before.init.dir();
    if !before.init.is_done() {
        match (before.init.phase, event) {
            (InitPhase::Terminating(plugin), InitEvent::Terminated(_)) => {
                let at = lemma_found_at(before.manager, dir, plugin);
                let rest = before.manager.plugins.remove(at);
                assert(after.manager.plugins == rest);
                assert forall|j: int| 0 <= j < rest.len() implies !has_dir(dir)(
                    #[trigger] rest[j],
                ) by {
                    let from = if j < at {
                        j
                    } else {
                        j + 1
                    };
                    assert(rest[j] == before.manager.plugins[from]);
                }
                lemma_none_found(rest, has_dir(dir));
            },
            (InitPhase::Adding, InitEvent::Prepared { connected, .. }) => {
                if connected {
                    let plugin = after.manager.plugins.last();
                    law_added_is_found(before.manager, plugin);
                    lemma_none_found(before.manager.plugins, has_dir(dir));
                    let added = before.manager.added(plugin).plugins;
                    assert(after.manager.plugins == added);
                    assert forall|i: int, j: int| 0 <= i < j < added.len() implies (
                    #[trigger] added[i]).dir@ != (#[trigger] added[j]).dir@ by {
                        assert(!has_dir(dir)(before.manager.plugins[i]));
                    }
                }
            },
            _ => {},
        }
    }
}

// Whole loadings

/// One step of a loading, with what it started from, what it was told, what it made
/// of it and what it asked for.
pub struct LoadingStep {
    /// Where everything stood before.
    pub before: InitWorld,
    /// What had happened.
    pub event: InitEvent,
    /// Where everything stood after.
    pub after: InitWorld,
    /// What was to be done then.
    pub action: InitAction,
}

impl LoadingStep {
    /// The loading goes on where that step left it. Subscribers may have come and gone
    /// in between; the plugins are as they were.
    pub open spec fn goes_on_from(self, step: LoadingStep) -> bool {
        &&& self.before.init == step.after.init
        &&& self.before.manager.plugins == step.after.manager.plugins
        &&& self.before.manager.boots == step.after.manager.boots
    }

    /// If a plugin was terminated, that succeeded.
    pub open spec fn terminates(self) -> bool {
        self.event matches InitEvent::Terminated(outcome) ==> outcome is Ok
    }

    /// If a plugin was removed, it was the one that was terminated.
    pub open spec fn removes_its_own(self) -> bool {
        removes_its_own(self.before, self.event)
    }

    /// If a plugin was to be added, no listed plugin had the id.
    pub open spec fn has_fresh_id(self) -> bool {
        self.event matches InitEvent::Prepared { ref_id, .. } ==> self.before.manager.by_ref_id(
            ref_id@,
        ) is None
    }

    /// If a plugin was to be added, the plugin client was there.
    pub open spec fn has_client(self) -> bool {
        self.event matches InitEvent::Prepared { connected, .. } ==> connected
    }

    /// If a plugin was to be added, the plugin client was not there.
    pub open spec fn lacks_client(self) -> bool {
        self.event matches InitEvent::Prepared { connected, .. } ==> !connected
    }

    /// If a plugin was asked to start, it said what it is.
    pub open spec fn starts(self) -> bool {
        self.event matches InitEvent::Booted(reply) ==> (reply matches Ok(event)
            && event.payload is BootResponse)
    }
}

/// The steps are those of one loading of `dirs`, from its start.
pub open spec fn is_loading(steps: Seq<LoadingStep>, dirs: Seq<String>) -> bool {
    &&& steps.len() > 0
    &&& steps[0].before.init == InitState::start(dirs)
    &&& forall|i: int|
        #![trigger steps[i]]
        0 <= i < steps.len() ==> init_step(
            steps[i].before,
            steps[i].event,
            steps[i].after,
            steps[i].action,
        )
    &&& forall|i: int, j: int|
        0 <= i && j == i + 1 && j < steps.len() ==> (#[trigger] steps[j]).goes_on_from(
            #[trigger] steps[i],
        )
}

/// The list of plugins that a loading starts from.
pub open spec fn plugins_before(steps: Seq<LoadingStep>) -> Seq<PluginHandle> {
    steps[0].before.manager.plugins
}

/// The list of plugins that a loading leaves.
pub open spec fn plugins_after(steps: Seq<LoadingStep>) -> Seq<PluginHandle> {
    steps.last().after.manager.plugins
}

/// The loading has gone through all its directories.
pub open spec fn is_finished(steps: Seq<LoadingStep>) -> bool {
    steps.last().after.init.is_done()
}

// The order of the directories

/// The text of each directory.
pub open spec fn texts_of(dirs: Seq<String>) -> Seq<Seq<char>> {
    dirs.map_values(|dir: String| dir@)
}

/// The directory of each plugin.
pub open spec fn dirs_of(plugins: Seq<PluginHandle>) -> Seq<Seq<char>> {
    plugins.map_values(|p: PluginHandle| p.dir@)
}

/// The directories other than this one.
pub open spec fn is_not(dir: Seq<char>) -> spec_fn(Seq<char>) -> bool {
    |d: Seq<char>| d != dir
}

/// The directories that are not among these.
pub open spec fn is_none_of(dirs: Seq<Seq<char>>) -> spec_fn(Seq<char>) -> bool {
    |d: Seq<char>| !dirs.contains(d)
}

/// The plugins from other directories than these.
pub open spec fn is_from_none_of(dirs: Seq<Seq<char>>) -> spec_fn(PluginHandle) -> bool {
    |p: PluginHandle| !dirs.contains(p.dir@)
}

/// `order` with `dir` at the end, and nowhere else.
pub open spec fn moved_to_end(order: Seq<Seq<char>>, dir: Seq<char>) -> Seq<Seq<char>> {
    order.filter(is_not(dir)).push(dir)
}

/// `order` once each of `dirs` has been moved to the end, one after the other.
pub open spec fn reordered(order: Seq<Seq<char>>, dirs: Seq<Seq<char>>) -> Seq<Seq<char>>
    decreases dirs.len(),
{
    if dirs.len() == 0 {
        order
    } else {
        moved_to_end(reordered(order, dirs.drop_last()), dirs.last())
    }
}

/// The directories that were not moved keep their order and come first, and those
/// that were moved follow.
proof fn lemma_reordered(order: Seq<Seq<char>>, dirs: Seq<Seq<char>>)
    ensures
        reordered(order, dirs) == order.filter(is_none_of(dirs)) + reordered(Seq::empty(), dirs),
        forall|d: Seq<char>| #[trigger]
            reordered(Seq::empty(), dirs).contains(d) <==> dirs.contains(d),
    decreases dirs.len(),
{
    let moved = reordered(Seq::empty(), dirs);
    if dirs.len() == 0 {
        lemma_filter_all(order, is_none_of(dirs));
        assert(order + moved =~= order);
    } else {
        let rest = dirs.drop_last();
        let dir = dirs.last();
        lemma_reordered(order, rest);
        let moved_before = reordered(Seq::empty(), rest);
        assert forall|d: Seq<char>| #[trigger]
            dirs.contains(d) <==> rest.contains(d) || d == dir by {
            if rest.contains(d) {
                let k = choose|k: int| 0 <= k < rest.len() && rest[k] == d;
                assert(dirs[k] == d);
            }
            if dirs.contains(d) && d != dir {
                let k = choose|k: int| 0 <= k < dirs.len() && dirs[k] == d;
                assert(rest[k] == d);
            }
            assert(dirs[dirs.len() - 1] == dir);
        }
        assert forall|d: Seq<char>| #[trigger]
            is_none_of(dirs)(d) <==> is_none_of(rest)(d) && is_not(dir)(d) by {
            assert(dirs.contains(d) <==> rest.contains(d) || d == dir);
        }
        lemma_filter_twice(order, is_none_of(rest), is_not(dir), is_none_of(dirs));
        Seq::filter_distributes_over_add(
            order.filter(is_none_of(rest)),
            moved_before,
            is_not(dir),
        );
        assert(reordered(order, dirs) =~= order.filter(is_none_of(dirs)) + moved);
        assert forall|d: Seq<char>| #[trigger] moved.contains(d) <==> dirs.contains(d) by {
            let kept = moved_before.filter(is_not(dir));
            assert(moved == kept.push(dir));
            assert(moved[kept.len() as int] == dir);
            if moved.contains(d) && d != dir {
                let k = choose|k: int| 0 <= k < moved.len() && moved[k] == d;
                assert(kept[k] == d);
                assert(kept.contains(d));
                moved_before.lemma_filter_contains_rev(is_not(dir), d);
            }
            if dirs.contains(d) && d != dir {
                assert(moved_before.contains(d));
                let k = choose|k: int| 0 <= k < moved_before.len() && moved_before[k] == d;
                moved_before.lemma_filter_contains(is_not(dir), k);
                let m = choose|m: int| 0 <= m < kept.len() && kept[m] == d;
                assert(moved[m] == d);
            }
        }
    }
}

/// To move the same directories a second time changes nothing.
proof fn lemma_reordered_twice(order: Seq<Seq<char>>, dirs: Seq<Seq<char>>)
    ensures
        reordered(reordered(order, dirs), dirs) == reordered(order, dirs),
{
    let pred = is_none_of(dirs);
    let kept = order.filter(pred);
    let moved = reordered(Seq::empty(), dirs);
    lemma_reordered(order, dirs);
    lemma_reordered(kept + moved, dirs);
    Seq::filter_distributes_over_add(kept, moved, pred);
    assert forall|i: int| 0 <= i < kept.len() implies pred(#[trigger] kept[i]) by {
        order.lemma_filter_pred(pred, i);
    }
    lemma_filter_all(kept, pred);
    assert forall|i: int| 0 <= i < moved.len() implies !pred(#[trigger] moved[i]) by {
        assert(moved.contains(moved[i]));
    }
    moved.lemma_all_neg_filter_empty(pred);
    assert(kept + moved.filter(pred) =~= kept);
}

// What a loading leaves

/// The order of the plugins' directories once the loading has come this far, where it
/// started from `order`.
spec fn order_so_far(init: InitState, order: Seq<Seq<char>>) -> Seq<Seq<char>> {
    let done = reordered(order, texts_of(init.dirs.take(init.next as int)));
    if init.is_done() {
        done
    } else {
        match init.phase {
            InitPhase::Lookup => done,
            InitPhase::Terminating(_) => done,
            InitPhase::Adding => done.filter(is_not(init.dir())),
            InitPhase::Booting(_) => moved_to_end(done, init.dir()),
        }
    }
}

/// The loading has come this far from the list `plugins`: the directories stand in the
/// order that follows, and the plugins that it does not touch are as they were.
spec fn replaced_so_far(world: InitWorld, plugins: Seq<PluginHandle>) -> bool {
    let others = is_from_none_of(texts_of(world.init.dirs));
    &&& loads_cleanly(world)
    &&& world.init.next <= world.init.dirs.len()
    &&& dirs_of(world.manager.plugins) == order_so_far(world.init, dirs_of(plugins))
    &&& world.manager.plugins.filter(others) == plugins.filter(others)
}

/// One directory more has been moved.
proof fn lemma_reordered_next(order: Seq<Seq<char>>, dirs: Seq<String>, next: int)
    requires
        0 <= next < dirs.len(),
    ensures
        reordered(order, texts_of(dirs.take(next + 1))) == moved_to_end(
            reordered(order, texts_of(dirs.take(next))),
            dirs[next]@,
        ),
        texts_of(dirs).contains(dirs[next]@),
{
    let longer = texts_of(dirs.take(next + 1));
    assert(longer.drop_last() =~= texts_of(dirs.take(next)));
    assert(longer.last() == dirs[next]@);
    assert(texts_of(dirs)[next] == dirs[next]@);
}

/// A step keeps what has been replaced.
proof fn lemma_replaced_so_far(step: LoadingStep, plugins: Seq<PluginHandle>)
    requires
        init_step(step.before, step.event, step.after, step.action),
        step.terminates(),
        step.removes_its_own(),
        step.has_client(),
        replaced_so_far(step.before, plugins),
    ensures
        replaced_so_far(step.after, plugins),
        step.after.init.dirs == step.before.init.dirs,
{
    let before = step.before;
    let after = step.after;
    law_loading_replaces(before, step.event, after, step.action);
    if !before.init.is_done() && before.init.expects(step.event) {
        let dir = before.init.dir();
        let order = dirs_of(before.manager.plugins);
        let others = is_from_none_of(texts_of(before.init.dirs));
        lemma_reordered_next(dirs_of(plugins), before.init.dirs, before.init.next as int);
        match (before.init.phase, step.event) {
            (InitPhase::Lookup, InitEvent::Ready) => {
                if before.manager.by_dir(dir) is None {
                    lemma_none_found(before.manager.plugins, has_dir(dir));
                    assert forall|i: int| 0 <= i < order.len() implies is_not(dir)(
                        #[trigger] order[i],
                    ) by {
                        assert(!has_dir(dir)(before.manager.plugins[i]));
                    }
                    lemma_filter_all(order, is_not(dir));
                }
            },
            (InitPhase::Terminating(plugin), InitEvent::Terminated(_)) => {
                let at = lemma_found_at(before.manager, dir, plugin);
                assert forall|j: int| 0 <= j < order.len() implies (is_not(dir)(
                    #[trigger] order[j],
                ) <==> j != at) by {
                    assert(order[j] == before.manager.plugins[j].dir@);
                }
                lemma_filter_is_remove(order, at, is_not(dir));
                assert(dirs_of(after.manager.plugins) =~= order.remove(at));
                lemma_filter_remove(before.manager.plugins, at, others);
            },
            (InitPhase::Adding, InitEvent::Prepared { .. }) => {
                let plugin = after.manager.plugins.last();
                assert(after.manager.plugins == before.manager.plugins.push(plugin));
                assert(dirs_of(after.manager.plugins) =~= order.push(dir));
                lemma_filter_push(before.manager.plugins, plugin, others);
            },
            _ => {},
        }
    }
}

/// What has been replaced after the first `n` steps.
proof fn lemma_replaced_until(steps: Seq<LoadingStep>, dirs: Seq<String>, n: int)
    requires
        is_loading(steps, dirs),
        distinct_dirs(plugins_before(steps)),
        forall|i: int|
            0 <= i < steps.len() ==> (#[trigger] steps[i]).terminates()
                && steps[i].removes_its_own() && steps[i].has_client(),
        0 < n <= steps.len(),
    ensures
        replaced_so_far(steps[n - 1].after, plugins_before(steps)),
        steps[n - 1].after.init.dirs == dirs,
    decreases n,
{
    let step = steps[n - 1];
    if n > 1 {
        lemma_replaced_until(steps, dirs, n - 1);
        assert(step.goes_on_from(steps[n - 2]));
    } else {
        assert(texts_of(dirs.take(0)) =~= Seq::empty());
    }
    lemma_replaced_so_far(step, plugins_before(steps));
}

/// Exactly one plugin is from this directory.
pub open spec fn has_one_from(plugins: Seq<PluginHandle>, dir: Seq<char>) -> bool {
    exists|i: int|
        #![trigger plugins[i]]
        0 <= i < plugins.len() && plugins[i].dir@ == dir && forall|j: int|
            0 <= j < plugins.len() && (#[trigger] plugins[j]).dir@ == dir ==> j == i
}

/// A loading with the plugin client there, in which no termination fails and each
/// removal takes the plugin that it is meant for, leaves exactly one plugin from each
/// directory that it went through, also where the directory was named twice or the
/// plugin did not start. The plugins from other directories stay as they were, in their
/// order, before the loaded ones.
#[verifier::rlimit(60)]
pub proof fn law_loading_loads_all(steps: Seq<LoadingStep>, dirs: Seq<String>)
    requires
        is_loading(steps, dirs),
        distinct_dirs(plugins_before(steps)),
        forall|i: int|
            0 <= i < steps.len() ==> (#[trigger] steps[i]).terminates()
                && steps[i].removes_its_own() && steps[i].has_client(),
    ensures
        distinct_dirs(plugins_after(steps)),
        is_finished(steps) ==> {
            let kept = plugins_before(steps).filter(is_from_none_of(texts_of(dirs)));
            let now = plugins_after(steps);
            &&& kept.len() <= now.len()
            &&& now.take(kept.len() as int) == kept
            &&& forall|i: int|
                kept.len() <= i < now.len() ==> texts_of(dirs).contains((#[trigger] now[i]).dir@)
            &&& forall|k: int|
                #![trigger dirs[k]]
                0 <= k < dirs.len() ==> has_one_from(now, dirs[k]@)
            &&& dirs_of(now) == reordered(dirs_of(plugins_before(steps)), texts_of(dirs))
        },
{
    lemma_replaced_until(steps, dirs, steps.len() as int);
    if is_finished(steps) {
        let texts = texts_of(dirs);
        let others = is_from_none_of(texts);
        let was = plugins_before(steps);
        let now = plugins_after(steps);
        let kept = was.filter(others);
        let n = kept.len() as int;
        let moved = reordered(Seq::empty(), texts);
        assert(dirs.take(dirs.len() as int) =~= dirs);
        lemma_reordered(dirs_of(was), texts);
        lemma_filter_map(was, |p: PluginHandle| p.dir@, others, is_none_of(texts));
        assert(dirs_of(kept) == dirs_of(was).filter(is_none_of(texts)));
        assert(dirs_of(now) == dirs_of(kept) + moved);
        assert(dirs_of(now).len() == now.len());
        let front = now.take(n);
        let back = now.skip(n);
        assert forall|i: int| 0 <= i < n implies others(#[trigger] front[i]) by {
            was.lemma_filter_pred(others, i);
            assert(dirs_of(now)[i] == dirs_of(kept)[i]);
        }
        assert forall|i: int| n <= i < now.len() implies texts.contains(
            (#[trigger] now[i]).dir@,
        ) by {
            assert(dirs_of(now)[i] == moved[i - n]);
            assert(moved.contains(moved[i - n]));
        }
        assert forall|i: int| 0 <= i < back.len() implies !others(#[trigger] back[i]) by {
            assert(back[i] == now[i + n]);
        }
        lemma_filter_all(front, others);
        back.lemma_all_neg_filter_empty(others);
        Seq::filter_distributes_over_add(front, back, others);
        assert(front + back =~= now);
        assert(front + back.filter(others) =~= front);
        assert forall|k: int| #![trigger dirs[k]] 0 <= k < dirs.len() implies has_one_from(
            now,
            dirs[k]@,
        ) by {
            assert(texts[k] == dirs[k]@);
            assert(moved.contains(dirs[k]@));
            let m = choose|m: int| 0 <= m < moved.len() && moved[m] == dirs[k]@;
            assert(dirs_of(now)[n + m] == moved[m]);
            assert(now[n + m].dir@ == dirs[k]@);
        }
    }
}

/// To load the same directories again, on the same conditions, leaves the order of the
/// plugins' directories as the first loading left it.
pub proof fn law_loading_again(
    first: Seq<LoadingStep>,
    second: Seq<LoadingStep>,
    dirs: Seq<String>,
)
    requires
        is_loading(first, dirs),
        is_loading(second, dirs),
        is_finished(first),
        is_finished(second),
        plugins_before(second) == plugins_after(first),
        distinct_dirs(plugins_before(first)),
        forall|i: int|
            0 <= i < first.len() ==> (#[trigger] first[i]).terminates()
                && first[i].removes_its_own() && first[i].has_client(),
        forall|i: int|
            0 <= i < second.len() ==> (#[trigger] second[i]).terminates()
                && second[i].removes_its_own() && second[i].has_client(),
    ensures
        dirs_of(plugins_after(second)) == dirs_of(plugins_after(first)),
{
    law_loading_loads_all(first, dirs);
    law_loading_loads_all(second, dirs);
    lemma_reordered_twice(dirs_of(plugins_before(first)), texts_of(dirs));
}

// Loadings with fresh ids

/// Each reference id stands for one plugin, and a plugin that is being terminated is
/// listed.
spec fn ids_so_far(world: InitWorld) -> bool {
    &&& distinct_ref_ids(world.manager.plugins)
    &&& world.init.phase matches InitPhase::Terminating(plugin)
        ==> world.manager.plugins.contains(plugin)
}

/// A step with a fresh id keeps the ids apart, and removes the right plugin.
proof fn lemma_ids_so_far(step: LoadingStep)
    requires
        init_step(step.before, step.event, step.after, step.action),
        step.has_fresh_id(),
        ids_so_far(step.before),
    ensures
        step.removes_its_own(),
        ids_so_far(step.after),
{
    let before = step.before;
    let after = step.after;
    let plugins = before.manager.plugins;
    if let InitPhase::Terminating(plugin) = before.init.phase {
        let at = choose|i: int| 0 <= i < plugins.len() && plugins[i] == plugin;
        assert forall|j: int| 0 <= j < at implies !has_ref_id(plugin.ref_id@)(
            #[trigger] plugins[j],
        ) by {
            assert(plugins[j].ref_id@ != plugins[at].ref_id@);
        }
        lemma_is_first(plugins, has_ref_id(plugin.ref_id@), at);
    }
    if !before.init.is_done() {
        match (before.init.phase, step.event) {
            (InitPhase::Lookup, InitEvent::Ready) => {
                lemma_first_index(plugins, has_dir(before.init.dir()));
            },
            (InitPhase::Terminating(plugin), InitEvent::Terminated(_)) => {
                law_removed_keeps_ref_ids_distinct(before.manager, plugin.ref_id@);
            },
            (InitPhase::Adding, InitEvent::Prepared { connected, .. }) => {
                if connected {
                    let plugin = after.manager.plugins.last();
                    law_added_keeps_ref_ids_distinct(before.manager, plugin);
                    assert(after.manager.plugins == before.manager.added(plugin).plugins);
                }
            },
            _ => {},
        }
    }
}

/// How the ids stand after the first `n` steps.
proof fn lemma_ids_until(steps: Seq<LoadingStep>, dirs: Seq<String>, n: int)
    requires
        is_loading(steps, dirs),
        distinct_ref_ids(plugins_before(steps)),
        forall|i: int| 0 <= i < steps.len() ==> (#[trigger] steps[i]).has_fresh_id(),
        0 < n <= steps.len(),
    ensures
        ids_so_far(steps[n - 1].after),
        forall|i: int| 0 <= i < n ==> (#[trigger] steps[i]).removes_its_own(),
    decreases n,
{
    let step = steps[n - 1];
    if n > 1 {
        lemma_ids_until(steps, dirs, n - 1);
        assert(step.goes_on_from(steps[n - 2]));
    }
    lemma_ids_so_far(step);
}

/// Where each plugin has its own reference id and each new one gets a fresh id, each
/// removal takes the plugin that it is meant for, whatever fails, and each plugin has
/// its own id in the end.
pub proof fn law_fresh_ids_remove_the_right_plugin(steps: Seq<LoadingStep>, dirs: Seq<String>)
    requires
        is_loading(steps, dirs),
        distinct_ref_ids(plugins_before(steps)),
        forall|i: int| 0 <= i < steps.len() ==> (#[trigger] steps[i]).has_fresh_id(),
    ensures
        forall|i: int| 0 <= i < steps.len() ==> (#[trigger] steps[i]).removes_its_own(),
        distinct_ref_ids(plugins_after(steps)),
{
    lemma_ids_until(steps, dirs, steps.len() as int);
}

// Loadings in which every plugin starts

/// A plugin from that directory is listed, and has started.
pub open spec fn has_started(manager: ManagerState, dir: Seq<char>) -> bool {
    manager.by_dir(dir) matches Some(plugin) && manager.info(plugin) is Some
}

/// The directories that are done have a started plugin, but for the one at hand,
/// whose plugin may be about to be replaced.
spec fn started_so_far(world: InitWorld) -> bool {
    &&& loads_cleanly(world)
    &&& world.manager.has_own_slots()
    &&& world.init.next <= world.init.dirs.len()
    &&& forall|k: int|
        #![trigger world.init.dirs[k]]
        0 <= k < world.init.next ==> has_started(world.manager, world.init.dirs[k]@) || (
        !world.init.is_done() && !(world.init.phase is Lookup) && world.init.dirs[k]@
            == world.init.dir())
}

/// A search passes over an item that does not fit, so it may as well go.
pub(crate) proof fn lemma_find_in_remove(
    plugins: Seq<PluginHandle>,
    i: int,
    pred: spec_fn(PluginHandle) -> bool,
)
    requires
        0 <= i < plugins.len(),
        !pred(plugins[i]),
    ensures
        find(plugins.remove(i), pred) == find(plugins, pred),
{
    let rest = plugins.remove(i);
    lemma_first_index(plugins, pred);
    let k = first_index(plugins, pred);
    let at = if k < i {
        k
    } else {
        k - 1
    };
    assert forall|j: int| 0 <= j < at implies !pred(#[trigger] rest[j]) by {
        assert(rest[j] == plugins[if j < i { j } else { j + 1 }]);
    }
    lemma_is_first(rest, pred, at);
}

/// A step leaves each plugin a slot of its own.
pub(crate) proof fn lemma_slots_after(step: LoadingStep)
    requires
        init_step(step.before, step.event, step.after, step.action),
        step.before.manager.has_own_slots(),
    ensures
        step.after.manager.has_own_slots(),
{
    if let InitPhase::Terminating(plugin) = step.before.init.phase {
        lemma_first_index(step.before.manager.plugins, has_ref_id(plugin.ref_id@));
    }
}

/// A step that goes well keeps what has started.
proof fn lemma_started_so_far(step: LoadingStep)
    requires
        init_step(step.before, step.event, step.after, step.action),
        step.terminates(),
        step.removes_its_own(),
        step.has_client(),
        step.starts(),
        started_so_far(step.before),
    ensures
        started_so_far(step.after),
        step.after.init.dirs == step.before.init.dirs,
{
    let before = step.before;
    let after = step.after;
    law_loading_replaces(before, step.event, after, step.action);
    if !before.init.is_done() && before.init.expects(step.event) {
        let dir = before.init.dir();
        let dirs = before.init.dirs;
        assert(after.init.dirs == dirs);
        match (before.init.phase, step.event) {
            (InitPhase::Terminating(plugin), InitEvent::Terminated(_)) => {
                let at = lemma_found_at(before.manager, dir, plugin);
                lemma_slots_after(step);
                assert forall|k: int|
                    #![trigger dirs[k]]
                    0 <= k < after.init.next implies has_started(after.manager, dirs[k]@)
                    || dirs[k]@ == dir by {
                    if dirs[k]@ != dir {
                        lemma_find_in_remove(before.manager.plugins, at, has_dir(dirs[k]@));
                    }
                }
            },
            (InitPhase::Adding, InitEvent::Prepared { .. }) => {
                let plugin = after.manager.plugins.last();
                assert(after.manager.plugins == before.manager.added(plugin).plugins);
                lemma_slots_after(step);
                assert forall|k: int|
                    #![trigger dirs[k]]
                    0 <= k < after.init.next implies has_started(after.manager, dirs[k]@)
                    || dirs[k]@ == dir by {
                    lemma_find_in_push(before.manager.plugins, plugin, has_dir(dirs[k]@));
                }
            },
            (InitPhase::Booting(plugin), InitEvent::Booted(reply)) => {
                lemma_slots_after(step);
                lemma_first_index(before.manager.plugins, has_dir(dir));
                assert forall|k: int|
                    #![trigger dirs[k]]
                    0 <= k < after.init.next implies has_started(after.manager, dirs[k]@) by {
                    assert(after.manager.by_dir(dirs[k]@) == before.manager.by_dir(dirs[k]@));
                }
            },
            _ => {},
        }
    }
}

/// What has started after the first `n` steps.
proof fn lemma_started_until(steps: Seq<LoadingStep>, dirs: Seq<String>, n: int)
    requires
        is_loading(steps, dirs),
        steps[0].before.manager.has_own_slots(),
        distinct_dirs(plugins_before(steps)),
        forall|i: int|
            0 <= i < steps.len() ==> (#[trigger] steps[i]).terminates()
                && steps[i].removes_its_own() && steps[i].has_client() && steps[i].starts(),
        0 < n <= steps.len(),
    ensures
        started_so_far(steps[n - 1].after),
        steps[n - 1].after.init.dirs == dirs,
    decreases n,
{
    let step = steps[n - 1];
    if n > 1 {
        lemma_started_until(steps, dirs, n - 1);
        assert(step.goes_on_from(steps[n - 2]));
    }
    lemma_started_so_far(step);
}

/// A loading in which moreover each plugin says what it is when it is asked to start
/// leaves a started plugin from each directory.
pub proof fn law_loading_starts_all(steps: Seq<LoadingStep>, dirs: Seq<String>)
    requires
        is_loading(steps, dirs),
        steps[0].before.manager.has_own_slots(),
        distinct_dirs(plugins_before(steps)),
        forall|i: int|
            0 <= i < steps.len() ==> (#[trigger] steps[i]).terminates()
                && steps[i].removes_its_own() && steps[i].has_client() && steps[i].starts(),
    ensures
        is_finished(steps) ==> forall|k: int|
            #![trigger dirs[k]]
            0 <= k < dirs.len() ==> has_started(steps.last().after.manager, dirs[k]@),
{
    lemma_started_until(steps, dirs, steps.len() as int);
}

// Loadings without the plugin client

/// The loading has come this far from the list `plugins`: it has only removed those
/// from the directories that it went through.
spec fn removed_so_far(world: InitWorld, plugins: Seq<PluginHandle>) -> bool {
    let through: nat = if !world.init.is_done() && world.init.phase is Adding {
        world.init.next + 1
    } else {
        world.init.next
    };
    &&& loads_cleanly(world)
    &&& world.init.next <= world.init.dirs.len()
    &&& !world.init.is_done() ==> !(world.init.phase is Booting)
    &&& world.manager.plugins == plugins.filter(
        is_from_none_of(texts_of(world.init.dirs.take(through as int))),
    )
}

/// The plugins from none of the directories, once there is one directory more.
proof fn lemma_from_none_of_next(plugins: Seq<PluginHandle>, dirs: Seq<String>, next: int)
    requires
        0 <= next < dirs.len(),
    ensures
        plugins.filter(is_from_none_of(texts_of(dirs.take(next + 1)))) == plugins.filter(
            is_from_none_of(texts_of(dirs.take(next))),
        ).filter(|p: PluginHandle| p.dir@ != dirs[next]@),
{
    let texts = texts_of(dirs.take(next));
    let longer = texts_of(dirs.take(next + 1));
    let other = |p: PluginHandle| p.dir@ != dirs[next]@;
    assert(longer =~= texts.push(dirs[next]@));
    assert forall|p: PluginHandle| #[trigger]
        is_from_none_of(longer)(p) <==> is_from_none_of(texts)(p) && other(p) by {
        if texts.contains(p.dir@) {
            let k = choose|k: int| 0 <= k < texts.len() && texts[k] == p.dir@;
            assert(longer[k] == p.dir@);
        }
        if longer.contains(p.dir@) && other(p) {
            let k = choose|k: int| 0 <= k < longer.len() && longer[k] == p.dir@;
            assert(texts[k] == p.dir@);
        }
        assert(longer[next] == dirs[next]@);
    }
    lemma_filter_twice(plugins, is_from_none_of(texts), other, is_from_none_of(longer));
}

/// A step without the plugin client only removes.
proof fn lemma_removed_so_far(step: LoadingStep, plugins: Seq<PluginHandle>)
    requires
        init_step(step.before, step.event, step.after, step.action),
        step.terminates(),
        step.removes_its_own(),
        step.lacks_client(),
        removed_so_far(step.before, plugins),
    ensures
        removed_so_far(step.after, plugins),
        step.after.init.dirs == step.before.init.dirs,
{
    let before = step.before;
    let after = step.after;
    law_loading_replaces(before, step.event, after, step.action);
    if !before.init.is_done() && before.init.expects(step.event) {
        let dir = before.init.dir();
        let was = before.manager.plugins;
        let other = |p: PluginHandle| p.dir@ != before.init.dirs[before.init.next as int]@;
        lemma_from_none_of_next(plugins, before.init.dirs, before.init.next as int);
        match (before.init.phase, step.event) {
            (InitPhase::Lookup, InitEvent::Ready) => {
                if before.manager.by_dir(dir) is None {
                    lemma_none_found(was, has_dir(dir));
                    assert forall|i: int| 0 <= i < was.len() implies other(#[trigger] was[i]) by {
                        assert(!has_dir(dir)(was[i]));
                    }
                    lemma_filter_all(was, other);
                }
            },
            (InitPhase::Terminating(plugin), InitEvent::Terminated(_)) => {
                let at = lemma_found_at(before.manager, dir, plugin);
                lemma_filter_is_remove(was, at, other);
                assert(after.manager.plugins == was.remove(at));
            },
            _ => {},
        }
    }
}

/// What has been removed after the first `n` steps.
proof fn lemma_removed_until(steps: Seq<LoadingStep>, dirs: Seq<String>, n: int)
    requires
        is_loading(steps, dirs),
        distinct_dirs(plugins_before(steps)),
        forall|i: int|
            0 <= i < steps.len() ==> (#[trigger] steps[i]).terminates()
                && steps[i].removes_its_own() && steps[i].lacks_client(),
        0 < n <= steps.len(),
    ensures
        removed_so_far(steps[n - 1].after, plugins_before(steps)),
        steps[n - 1].after.init.dirs == dirs,
    decreases n,
{
    let step = steps[n - 1];
    let plugins = plugins_before(steps);
    if n > 1 {
        lemma_removed_until(steps, dirs, n - 1);
        assert(step.goes_on_from(steps[n - 2]));
    } else {
        let none = is_from_none_of(texts_of(dirs.take(0)));
        lemma_filter_all(plugins, none);
    }
    lemma_removed_so_far(step, plugins);
}

/// A loading without the plugin client adds nothing: where no termination fails, it
/// leaves the plugins from the other directories, as they were and in their order.
pub proof fn law_loading_needs_client(steps: Seq<LoadingStep>, dirs: Seq<String>)
    requires
        is_loading(steps, dirs),
        distinct_dirs(plugins_before(steps)),
        forall|i: int|
            0 <= i < steps.len() ==> (#[trigger] steps[i]).terminates()
                && steps[i].removes_its_own() && steps[i].lacks_client(),
    ensures
        is_finished(steps) ==> plugins_after(steps) == plugins_before(steps).filter(
            is_from_none_of(texts_of(dirs)),
        ),
{
    lemma_removed_until(steps, dirs, steps.len() as int);
    if is_finished(steps) {
        assert(dirs.take(dirs.len() as int) =~= dirs);
    }
}

} // verus!
