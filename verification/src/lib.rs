//! The plugins of a desktop API client: which ones run, who listens to them, what
//! they are asked and what their answers mean.
//!
//! Nothing here waits, sends or reads. An operation that has to is cut where it
//! does: the first half says what is to be sent, and the second half takes what
//! came back. Ids that have to be fresh are handed in.

pub mod call_laws;
pub mod error;
pub mod events;
pub mod exchange;
mod filtering;
pub mod initialization;
pub mod laws;
pub mod loading_laws;
pub mod manager;
pub mod path_laws;
pub mod paths;
pub mod plugin_handle;
pub mod request_call_laws;
pub mod request_laws;
pub mod requests;
pub mod search;
pub mod step_laws;
pub mod text;
