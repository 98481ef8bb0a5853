//! One running plugin, as the manager knows it.

use crate::events::{InternalEvent, InternalEventPayload};
use crate::search::{first_index, lemma_is_first};
use vstd::prelude::*;

verus! {

/// A plugin that the manager has made. A copy stands for the same plugin: what the
/// plugin says of itself when it starts is kept by the manager, under the slot, and is
/// known of every copy from then on, whenever it was made.
#[derive(Debug, PartialEq, Eq)]
pub struct PluginHandle {
    /// Names this run of the plugin.
    pub ref_id: String,
    /// The directory that the plugin was loaded from.
    pub dir: String,
    /// Where the manager keeps what the plugin says of itself.
    pub slot: usize,
}

impl Clone for PluginHandle {
    fn clone(&self) -> (res: Self)
        ensures
            res == *self,
    {
        PluginHandle { ref_id: self.ref_id.clone(), dir: self.dir.clone(), slot: self.slot }
    }
}

/// The plugins with this reference id.
pub open spec fn has_ref_id(ref_id: Seq<char>) -> spec_fn(PluginHandle) -> bool {
    |p: PluginHandle| p.ref_id@ == ref_id
}

/// The plugins with this directory.
pub open spec fn has_dir(dir: Seq<char>) -> spec_fn(PluginHandle) -> bool {
    |p: PluginHandle| p.dir@ == dir
}

/// The event with this id that carries `payload` to `plugin`.
pub open spec fn event_to(
    plugin: PluginHandle,
    payload: InternalEventPayload,
    reply_id: Option<String>,
    id: String,
) -> InternalEvent {
    InternalEvent { id, plugin_ref_id: plugin.ref_id, reply_id, payload }
}

impl PluginHandle {
    /// A plugin. `ref_id` is to be a fresh id, and `slot` a slot that no other plugin
    /// has.
    pub fn new(dir: &str, ref_id: String, slot: usize) -> (res: PluginHandle)
        ensures
            res.ref_id == ref_id,
            res.dir@ == dir@,
            res.slot == slot,
    {
        PluginHandle { ref_id, dir: dir.to_owned(), slot }
    }

    /// An event for this plugin. `id` is to be a fresh id.
    pub fn build_event_to_send(
        &self,
        payload: &InternalEventPayload,
        reply_id: Option<String>,
        id: String,
    ) -> (res: InternalEvent)
        ensures
            res == event_to(*self, *payload, reply_id, id),
            res.id == id,
            res.plugin_ref_id == self.ref_id,
            res.reply_id == reply_id,
            res.payload == *payload,
    {
        InternalEvent { id, plugin_ref_id: self.ref_id.clone(), reply_id, payload: payload.clone() }
    }
}

/// Finds the first plugin with this reference id; the index is the number of
/// plugins where there is none.
pub fn position_by_ref_id(plugins: &Vec<PluginHandle>, ref_id: &str) -> (res: usize)
    ensures
        res == first_index(plugins@, has_ref_id(ref_id@)),
        res <= plugins@.len(),
{
    let key = ref_id.to_owned();
    let mut i: usize = 0;
    while i < plugins.len() && plugins[i].ref_id != key
        invariant
            i <= plugins@.len(),
            key@ == ref_id@,
            forall|j: int| 0 <= j < i ==> !has_ref_id(ref_id@)(#[trigger] plugins@[j]),
        decreases plugins@.len() - i,
    {
        i = i + 1;
    }
    proof {
        lemma_is_first(plugins@, has_ref_id(ref_id@), i as int);
    }
    i
}

/// Finds the first plugin with this directory; the index is the number of
/// plugins where there is none.
pub fn position_by_dir(plugins: &Vec<PluginHandle>, dir: &str) -> (res: usize)
    ensures
        res == first_index(plugins@, has_dir(dir@)),
        res <= plugins@.len(),
{
    let key = dir.to_owned();
    let mut i: usize = 0;
    while i < plugins.len() && plugins[i].dir != key
        invariant
            i <= plugins@.len(),
            key@ == dir@,
            forall|j: int| 0 <= j < i ==> !has_dir(dir@)(#[trigger] plugins@[j]),
        decreases plugins@.len() - i,
    {
        i = i + 1;
    }
    proof {
        lemma_is_first(plugins@, has_dir(dir@), i as int);
    }
    i
}

} // verus!
