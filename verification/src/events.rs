//! The events that the application and its plugins exchange.
//!
//! Each type holds the fields that the manager reads; what it only carries is
//! kept as JSON text.

use std::collections::HashMap;
use std::sync::Arc;
use vstd::prelude::*;

verus! {

/// Why a template is rendered.
#[derive(Clone, Copy, Debug, PartialEq, Eq)]
pub enum RenderPurpose {
    /// The request is about to be sent.
    Send,
    /// The result is only shown.
    Preview,
}

/// Asks a plugin to start from the directory it was installed in.
#[derive(Debug, PartialEq, Eq)]
pub struct BootRequest {
    /// The plugin's directory.
    pub dir: String,
}

impl Clone for BootRequest {
    fn clone(&self) -> (res: Self)
        ensures
            res == *self,
    {
        BootRequest { dir: self.dir.clone() }
    }
}

/// What a plugin says of itself once it has started.
#[derive(Debug, PartialEq, Eq)]
pub struct BootResponse {
    /// The plugin's name.
    pub name: String,
    /// The other fields, as JSON text.
    pub body: String,
}

impl Clone for BootResponse {
    fn clone(&self) -> (res: Self)
        ensures
            res == *self,
    {
        BootResponse { name: self.name.clone(), body: self.body.clone() }
    }
}

/// Asks a plugin for the actions it adds to HTTP requests.
#[derive(Debug, PartialEq, Eq)]
pub struct GetHttpRequestActionsRequest {
}

impl Clone for GetHttpRequestActionsRequest {
    fn clone(&self) -> (res: Self)
        ensures
            res == *self,
    {
        GetHttpRequestActionsRequest {  }
    }
}

/// The actions that a plugin adds to HTTP requests.
#[derive(Debug, PartialEq, Eq)]
pub struct GetHttpRequestActionsResponse {
    /// The list of actions, as JSON text.
    pub body: String,
}

impl Clone for GetHttpRequestActionsResponse {
    fn clone(&self) -> (res: Self)
        ensures
            res == *self,
    {
        GetHttpRequestActionsResponse { body: self.body.clone() }
    }
}

/// The template functions that a plugin offers.
#[derive(Debug, PartialEq, Eq)]
pub struct GetTemplateFunctionsResponse {
    /// The list of functions, as JSON text.
    pub body: String,
}

impl Clone for GetTemplateFunctionsResponse {
    fn clone(&self) -> (res: Self)
        ensures
            res == *self,
    {
        GetTemplateFunctionsResponse { body: self.body.clone() }
    }
}

/// Asks one plugin to run one of its actions.
#[derive(Debug, PartialEq, Eq)]
pub struct CallHttpRequestActionRequest {
    /// The plugin that owns the action.
    pub plugin_ref_id: String,
    /// The action and its arguments, as JSON text.
    pub body: String,
}

impl Clone for CallHttpRequestActionRequest {
    fn clone(&self) -> (res: Self)
        ensures
            res == *self,
    {
        CallHttpRequestActionRequest { plugin_ref_id: self.plugin_ref_id.clone(), body: self.body.clone() }
    }
}

/// The arguments of a template function.
#[derive(Debug, PartialEq, Eq)]
pub struct CallTemplateFunctionArgs {
    /// Why the template is rendered.
    pub purpose: RenderPurpose,
    /// The arguments by name, shared by the copies of the request.
    pub values: Arc<HashMap<String, String>>,
}

impl Clone for CallTemplateFunctionArgs {
    fn clone(&self) -> (res: Self)
        ensures
            res == *self,
    {
        CallTemplateFunctionArgs { purpose: self.purpose, values: self.values.clone() }
    }
}

/// Asks the plugins to evaluate a template function.
#[derive(Debug, PartialEq, Eq)]
pub struct CallTemplateFunctionRequest {
    /// The function's name.
    pub name: String,
    /// Its arguments.
    pub args: CallTemplateFunctionArgs,
}

impl Clone for CallTemplateFunctionRequest {
    fn clone(&self) -> (res: Self)
        ensures
            res == *self,
    {
        CallTemplateFunctionRequest { name: self.name.clone(), args: self.args.clone() }
    }
}

/// A plugin's answer to the call of a template function.
#[derive(Debug, PartialEq, Eq)]
pub struct CallTemplateFunctionResponse {
    /// The value, where the plugin knows the function.
    pub value: Option<String>,
}

impl Clone for CallTemplateFunctionResponse {
    fn clone(&self) -> (res: Self)
        ensures
            res == *self,
    {
        CallTemplateFunctionResponse { value: self.value.clone() }
    }
}

/// Asks the plugins to import a file.
#[derive(Debug, PartialEq, Eq)]
pub struct ImportRequest {
    /// The file's contents.
    pub content: String,
}

impl Clone for ImportRequest {
    fn clone(&self) -> (res: Self)
        ensures
            res == *self,
    {
        ImportRequest { content: self.content.clone() }
    }
}

/// What a plugin imported.
#[derive(Debug, PartialEq, Eq)]
pub struct ImportResponse {
    /// The imported resources, as JSON text.
    pub body: String,
}

impl Clone for ImportResponse {
    fn clone(&self) -> (res: Self)
        ensures
            res == *self,
    {
        ImportResponse { body: self.body.clone() }
    }
}

/// Asks a plugin to filter a response body.
#[derive(Debug, PartialEq, Eq)]
pub struct FilterRequest {
    /// The filter expression.
    pub filter: String,
    /// The body to filter.
    pub content: String,
}

impl Clone for FilterRequest {
    fn clone(&self) -> (res: Self)
        ensures
            res == *self,
    {
        FilterRequest { filter: self.filter.clone(), content: self.content.clone() }
    }
}

/// A filtered response body.
#[derive(Debug, PartialEq, Eq)]
pub struct FilterResponse {
    /// What the filter left.
    pub content: String,
}

impl Clone for FilterResponse {
    fn clone(&self) -> (res: Self)
        ensures
            res == *self,
    {
        FilterResponse { content: self.content.clone() }
    }
}

/// A payload that the manager carries and never reads.
#[derive(Debug, PartialEq, Eq)]
pub struct OtherPayload {
    /// The name of the payload's kind.
    pub kind: String,
    /// Its fields, as JSON text.
    pub body: String,
}

impl Clone for OtherPayload {
    fn clone(&self) -> (res: Self)
        ensures
            res == *self,
    {
        OtherPayload { kind: self.kind.clone(), body: self.body.clone() }
    }
}

/// What an event says.
#[derive(Debug, PartialEq, Eq)]
pub enum InternalEventPayload {
    BootRequest(BootRequest),
    BootResponse(BootResponse),
    GetHttpRequestActionsRequest(GetHttpRequestActionsRequest),
    GetHttpRequestActionsResponse(GetHttpRequestActionsResponse),
    GetTemplateFunctionsRequest,
    GetTemplateFunctionsResponse(GetTemplateFunctionsResponse),
    CallHttpRequestActionRequest(CallHttpRequestActionRequest),
    CallTemplateFunctionRequest(CallTemplateFunctionRequest),
    CallTemplateFunctionResponse(CallTemplateFunctionResponse),
    ImportRequest(ImportRequest),
    ImportResponse(ImportResponse),
    FilterRequest(FilterRequest),
    FilterResponse(FilterResponse),
    EmptyResponse,
    Other(OtherPayload),
}

impl Clone for InternalEventPayload {
    fn clone(&self) -> (res: Self)
        ensures
            res == *self,
    {
        match self {
            InternalEventPayload::BootRequest(x) => InternalEventPayload::BootRequest(x.clone()),
            InternalEventPayload::BootResponse(x) => InternalEventPayload::BootResponse(x.clone()),
            InternalEventPayload::GetHttpRequestActionsRequest(x) => InternalEventPayload::GetHttpRequestActionsRequest(x.clone()),
            InternalEventPayload::GetHttpRequestActionsResponse(x) => InternalEventPayload::GetHttpRequestActionsResponse(x.clone()),
            InternalEventPayload::GetTemplateFunctionsRequest => InternalEventPayload::GetTemplateFunctionsRequest,
            InternalEventPayload::GetTemplateFunctionsResponse(x) => InternalEventPayload::GetTemplateFunctionsResponse(x.clone()),
            InternalEventPayload::CallHttpRequestActionRequest(x) => InternalEventPayload::CallHttpRequestActionRequest(x.clone()),
            InternalEventPayload::CallTemplateFunctionRequest(x) => InternalEventPayload::CallTemplateFunctionRequest(x.clone()),
            InternalEventPayload::CallTemplateFunctionResponse(x) => InternalEventPayload::CallTemplateFunctionResponse(x.clone()),
            InternalEventPayload::ImportRequest(x) => InternalEventPayload::ImportRequest(x.clone()),
            InternalEventPayload::ImportResponse(x) => InternalEventPayload::ImportResponse(x.clone()),
            InternalEventPayload::FilterRequest(x) => InternalEventPayload::FilterRequest(x.clone()),
            InternalEventPayload::FilterResponse(x) => InternalEventPayload::FilterResponse(x.clone()),
            InternalEventPayload::EmptyResponse => InternalEventPayload::EmptyResponse,
            InternalEventPayload::Other(x) => InternalEventPayload::Other(x.clone()),
        }
    }
}

/// One message between the application and a plugin.
#[derive(Debug, PartialEq, Eq)]
pub struct InternalEvent {
    /// Names this event.
    pub id: String,
    /// The plugin that sends or receives it.
    pub plugin_ref_id: String,
    /// The event that this one answers, if it answers one.
    pub reply_id: Option<String>,
    /// What it says.
    pub payload: InternalEventPayload,
}

impl Clone for InternalEvent {
    fn clone(&self) -> (res: Self)
        ensures
            res == *self,
    {
        InternalEvent {
            id: self.id.clone(),
            plugin_ref_id: self.plugin_ref_id.clone(),
            reply_id: self.reply_id.clone(),
            payload: self.payload.clone(),
        }
    }
}

} // verus!
