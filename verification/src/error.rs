//! The errors of the plugin runtime.

use vstd::prelude::*;

verus! {

/// Why an operation on plugins failed.
#[derive(Debug, PartialEq, Eq)]
pub enum Error {
    /// No plugin client has connected yet.
    ClientNotInitializedErr,
    /// A plugin could not do what it was asked; the text says what.
    PluginErr(String),
    /// No plugin has this directory or reference id.
    PluginNotFoundErr(String),
    /// A plugin answered with an event of the wrong kind.
    UnknownEventErr,
    /// The link to a plugin, or the file system, failed; the text says how.
    TransportErr(String),
}

} // verus!
