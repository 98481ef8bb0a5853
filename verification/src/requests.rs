//! What the application asks of its plugins, and how it reads their answers.

use crate::error::Error;
use crate::events::{
    CallHttpRequestActionRequest, CallTemplateFunctionArgs, CallTemplateFunctionRequest,
    FilterRequest, FilterResponse, GetHttpRequestActionsRequest, GetHttpRequestActionsResponse,
    GetTemplateFunctionsResponse, ImportRequest, ImportResponse, InternalEvent,
    InternalEventPayload, RenderPurpose,
};
use crate::exchange::{collector_of, exchange_with, Exchange, Outbound, ReplyCollector};
use crate::manager::{asks_one, is_not_found, ManagerState, PluginManager};
use crate::plugin_handle::{event_to, has_ref_id};
use crate::search::{find, find_map, lemma_first_index, lemma_is_first};
use crate::text::{ascii_lowercase, contains, contains_text, lowercase};
use std::collections::HashMap;
use std::sync::Arc;
use vstd::prelude::*;
use vstd::utf8::is_ascii_chars;

verus! {

/// The HTTP request actions that an event carries.
pub open spec fn http_request_actions_in() -> spec_fn(InternalEvent) -> Option<
    GetHttpRequestActionsResponse,
> {
    |event: InternalEvent|
        match event.payload {
            InternalEventPayload::GetHttpRequestActionsResponse(resp) => Some(resp),
            _ => None,
        }
}

/// The template functions that an event carries.
pub open spec fn template_functions_in() -> spec_fn(InternalEvent) -> Option<
    GetTemplateFunctionsResponse,
> {
    |event: InternalEvent|
        match event.payload {
            InternalEventPayload::GetTemplateFunctionsResponse(resp) => Some(resp),
            _ => None,
        }
}

/// The value of a template function that an event carries.
pub open spec fn template_value_in() -> spec_fn(InternalEvent) -> Option<String> {
    |event: InternalEvent|
        match event.payload {
            InternalEventPayload::CallTemplateFunctionResponse(resp) => resp.value,
            _ => None,
        }
}

/// The import that an event carries, with the plugin that made it.
pub open spec fn import_in() -> spec_fn(InternalEvent) -> Option<(ImportResponse, String)> {
    |event: InternalEvent|
        match event.payload {
            InternalEventPayload::ImportResponse(resp) => Some((resp, event.plugin_ref_id)),
            _ => None,
        }
}

/// The payload asks for the value of a template function.
pub open spec fn is_template_call(
    payload: InternalEventPayload,
    fn_name: Seq<char>,
    args: HashMap<String, String>,
    purpose: RenderPurpose,
) -> bool {
    &&& payload matches InternalEventPayload::CallTemplateFunctionRequest(req)
    &&& req.name@ == fn_name
    &&& *req.args.values == args
    &&& req.args.purpose == purpose
}

/// The payload asks to import this file.
pub open spec fn is_import_request(payload: InternalEventPayload, content: Seq<char>) -> bool {
    payload matches InternalEventPayload::ImportRequest(req) && req.content@ == content
}

/// The payload asks to filter this content.
pub open spec fn is_filter_request(
    payload: InternalEventPayload,
    filter: Seq<char>,
    content: Seq<char>,
) -> bool {
    payload matches InternalEventPayload::FilterRequest(req) && req.filter@ == filter
        && req.content@ == content
}

/// The directory of the plugin that filters content of a type, which is given in
/// lower case.
pub open spec fn filter_plugin_dir(lowered_type: Seq<char>) -> Seq<char> {
    if contains_text(lowered_type, "json"@) {
        "filter-jsonpath"@
    } else {
        "filter-xpath"@
    }
}

/// The error is a plugin's, with this text.
pub open spec fn is_plugin_error(error: Error, text: Seq<char>) -> bool {
    error matches Error::PluginErr(t) && t@ == text
}

impl ManagerState {
    /// Whoever made the first import among `events`, if still listed, has started.
    pub open spec fn knows_importer(self, events: Seq<InternalEvent>) -> bool {
        find_map(events, import_in()) matches Some(import) ==> (self.by_ref_id(import.1@) matches Some(
            plugin,
        ) ==> self.info(plugin) is Some)
    }
}

/// Finds the first import among `events`; the index is the number of events where
/// there is none.
fn position_of_import(events: &Vec<InternalEvent>) -> (res: usize)
    ensures
        res <= events@.len(),
        res < events@.len() ==> events@[res as int].payload is ImportResponse && find_map(
            events@,
            import_in(),
        ) == import_in()(events@[res as int]),
        res == events@.len() ==> find_map(events@, import_in()) is None,
{
    let ghost pred = |x: InternalEvent| import_in()(x) is Some;
    let mut i: usize = 0;
    while i < events.len()
        invariant
            i <= events@.len(),
            pred == (|x: InternalEvent| import_in()(x) is Some),
            forall|j: int| 0 <= j < i ==> !pred(#[trigger] events@[j]),
        decreases events@.len() - i,
    {
        if let InternalEventPayload::ImportResponse(_) = &events[i].payload {
            proof {
                lemma_is_first(events@, pred, i as int);
            }
            return i;
        }
        i = i + 1;
    }
    proof {
        lemma_is_first(events@, pred, i as int);
    }
    i
}

impl PluginManager {
    /// Asks every plugin for its HTTP request actions. The ids are to be fresh, with
    /// one event id for each plugin; the replies go to
    /// [`PluginManager::http_request_actions`].
    pub fn get_http_request_actions(
        &mut self,
        rx_id: String,
        event_ids: Vec<String>,
    ) -> (res: (Exchange, ReplyCollector))
        requires
            old(self).wf(),
            event_ids@.len() == old(self)@.plugins.len(),
        ensures
            final(self).wf(),
            final(self)@ == old(self)@.subscribed(rx_id@),
            res.0@ == exchange_with(
                InternalEventPayload::GetHttpRequestActionsRequest(
                    (GetHttpRequestActionsRequest {  }),
                ),
                old(self)@.plugins,
                rx_id@,
                event_ids@,
            ),
            res.1@ == collector_of(event_ids@),
            res.0@.outbound.len() == old(self)@.plugins.len(),
            forall|i: int|
                0 <= i < res.0@.outbound.len() ==> ((#[trigger] res.0@.outbound[i]).event.payload is GetHttpRequestActionsRequest),
    {
        let payload = InternalEventPayload::GetHttpRequestActionsRequest(
            GetHttpRequestActionsRequest {  },
        );
        self.send_and_wait(&payload, rx_id, event_ids)
    }

    /// The HTTP request actions in the replies. Replies of another kind are passed
    /// over.
    pub fn http_request_actions(replies: Result<Vec<InternalEvent>, Error>) -> (res: Result<
        Vec<GetHttpRequestActionsResponse>,
        Error,
    >)
        ensures
            match replies {
                Err(error) => res == Err::<Vec<GetHttpRequestActionsResponse>, Error>(error),
                Ok(events) => {
                    &&& res matches Ok(actions)
                    &&& actions@ == events@.filter_map(http_request_actions_in())
                },
            },
    {
        let events = match replies {
            Ok(events) => events,
            Err(error) => {
                return Err(error);
            },
        };
        let mut all_actions: Vec<GetHttpRequestActionsResponse> = Vec::new();
        let mut i: usize = 0;
        while i < events.len()
            invariant
                i <= events@.len(),
                all_actions@ == events@.take(i as int).filter_map(http_request_actions_in()),
            decreases events@.len() - i,
        {
            if let InternalEventPayload::GetHttpRequestActionsResponse(resp) = &events[i].payload {
                all_actions.push(resp.clone());
            }
            assert(events@.take(i + 1).drop_last() =~= events@.take(i as int));
            i = i + 1;
        }
        assert(events@.take(events@.len() as int) =~= events@);
        Ok(all_actions)
    }

    /// Asks every plugin for its template functions. The ids are to be fresh, with
    /// one event id for each plugin; the replies go to
    /// [`PluginManager::template_functions`].
    pub fn get_template_functions(
        &mut self,
        rx_id: String,
        event_ids: Vec<String>,
    ) -> (res: (Exchange, ReplyCollector))
        requires
            old(self).wf(),
            event_ids@.len() == old(self)@.plugins.len(),
        ensures
            final(self).wf(),
            final(self)@ == old(self)@.subscribed(rx_id@),
            res.0@ == exchange_with(
                InternalEventPayload::GetTemplateFunctionsRequest,
                old(self)@.plugins,
                rx_id@,
                event_ids@,
            ),
            res.1@ == collector_of(event_ids@),
            res.0@.outbound.len() == old(self)@.plugins.len(),
            forall|i: int|
                0 <= i < res.0@.outbound.len() ==> ((#[trigger] res.0@.outbound[i]).event.payload is GetTemplateFunctionsRequest),
    {
        self.send_and_wait(&InternalEventPayload::GetTemplateFunctionsRequest, rx_id, event_ids)
    }

    /// The template functions in the replies. Replies of another kind are passed
    /// over.
    pub fn template_functions(replies: Result<Vec<InternalEvent>, Error>) -> (res: Result<
        Vec<GetTemplateFunctionsResponse>,
        Error,
    >)
        ensures
            match replies {
                Err(error) => res == Err::<Vec<GetTemplateFunctionsResponse>, Error>(error),
                Ok(events) => {
                    &&& res matches Ok(functions)
                    &&& functions@ == events@.filter_map(template_functions_in())
                },
            },
    {
        let events = match replies {
            Ok(events) => events,
            Err(error) => {
                return Err(error);
            },
        };
        let mut all_functions: Vec<GetTemplateFunctionsResponse> = Vec::new();
        let mut i: usize = 0;
        while i < events.len()
            invariant
                i <= events@.len(),
                all_functions@ == events@.take(i as int).filter_map(template_functions_in()),
            decreases events@.len() - i,
        {
            if let InternalEventPayload::GetTemplateFunctionsResponse(resp) = &events[i].payload {
                all_functions.push(resp.clone());
            }
            assert(events@.take(i + 1).drop_last() =~= events@.take(i as int));
            i = i + 1;
        }
        assert(events@.take(events@.len() as int) =~= events@);
        Ok(all_functions)
    }

    /// The event that has a plugin run one of its actions. `event_id` is to be a
    /// fresh id.
    pub fn call_http_request_action(
        &self,
        req: CallHttpRequestActionRequest,
        event_id: String,
    ) -> (res: Result<Outbound, Error>)
        ensures
            match self@.by_ref_id(req.plugin_ref_id@) {
                Some(plugin) => {
                    &&& res matches Ok(out)
                    &&& out.plugin == plugin
                    &&& out.event == event_to(
                        plugin,
                        InternalEventPayload::CallHttpRequestActionRequest(req),
                        None,
                        event_id,
                    )
                    &&& out.event.id == event_id
                    &&& out.event.plugin_ref_id@ == req.plugin_ref_id@
                    &&& out.event.reply_id is None
                    &&& out.event.payload == InternalEventPayload::CallHttpRequestActionRequest(req)
                },
                None => res matches Err(e) && is_not_found(e, req.plugin_ref_id@),
            },
    {
        proof {
            lemma_first_index(self@.plugins, has_ref_id(req.plugin_ref_id@));
        }
        match self.get_plugin_by_ref_id(req.plugin_ref_id.as_str()) {
            Some(plugin) => {
                let payload = InternalEventPayload::CallHttpRequestActionRequest(req);
                let event = plugin.build_event_to_send(&payload, None, event_id);
                Ok(Outbound { plugin, event })
            },
            None => Err(Error::PluginNotFoundErr(req.plugin_ref_id)),
        }
    }

    /// Asks every plugin for the value of a template function. The ids are to be
    /// fresh, with one event id for each plugin; the replies go to
    /// [`PluginManager::template_value`].
    pub fn call_template_function(
        &mut self,
        fn_name: &str,
        args: HashMap<String, String>,
        purpose: RenderPurpose,
        rx_id: String,
        event_ids: Vec<String>,
    ) -> (res: (Exchange, ReplyCollector))
        requires
            old(self).wf(),
            event_ids@.len() == old(self)@.plugins.len(),
        ensures
            final(self).wf(),
            final(self)@ == old(self)@.subscribed(rx_id@),
            exists|payload: InternalEventPayload|
                is_template_call(payload, fn_name@, args, purpose) && res.0@ == #[trigger]
                exchange_with(payload, old(self)@.plugins, rx_id@, event_ids@),
            res.1@ == collector_of(event_ids@),
            res.0@.outbound.len() == old(self)@.plugins.len(),
            forall|i: int|
                0 <= i < res.0@.outbound.len() ==> ((
                #[trigger] res.0@.outbound[i]).event.payload matches InternalEventPayload::CallTemplateFunctionRequest(
                    req,
                ) && req.name@ == fn_name@ && *req.args.values == args && req.args.purpose
                    == purpose),
    {
        let req = CallTemplateFunctionRequest {
            name: fn_name.to_owned(),
            args: CallTemplateFunctionArgs { purpose, values: Arc::new(args) },
        };
        let payload = InternalEventPayload::CallTemplateFunctionRequest(req);
        self.send_and_wait(&payload, rx_id, event_ids)
    }

    /// The value of a template function: the first one that a plugin gave.
    pub fn template_value(replies: Result<Vec<InternalEvent>, Error>) -> (res: Result<
        Option<String>,
        Error,
    >)
        ensures
            match replies {
                Err(error) => res == Err::<Option<String>, Error>(error),
                Ok(events) => res == Ok::<Option<String>, Error>(
                    find_map(events@, template_value_in()),
                ),
            },
    {
        let events = match replies {
            Ok(events) => events,
            Err(error) => {
                return Err(error);
            },
        };
        let ghost pred = |x: InternalEvent| template_value_in()(x) is Some;
        let mut i: usize = 0;
        while i < events.len()
            invariant
                i <= events@.len(),
                pred == (|x: InternalEvent| template_value_in()(x) is Some),
                replies == Ok::<Vec<InternalEvent>, Error>(events),
                forall|j: int| 0 <= j < i ==> !pred(#[trigger] events@[j]),
            decreases events@.len() - i,
        {
            if let InternalEventPayload::CallTemplateFunctionResponse(resp) = &events[i].payload {
                if resp.value.is_some() {
                    proof {
                        lemma_is_first(events@, pred, i as int);
                    }
                    return Ok(resp.value.clone());
                }
            }
            i = i + 1;
        }
        proof {
            lemma_is_first(events@, pred, i as int);
        }
        Ok(None)
    }

    /// Asks every plugin to import a file. The ids are to be fresh, with one event id
    /// for each plugin; the replies go to [`PluginManager::imported_data`].
    pub fn import_data(&mut self, content: &str, rx_id: String, event_ids: Vec<String>) -> (res: (
        Exchange,
        ReplyCollector,
    ))
        requires
            old(self).wf(),
            event_ids@.len() == old(self)@.plugins.len(),
        ensures
            final(self).wf(),
            final(self)@ == old(self)@.subscribed(rx_id@),
            exists|payload: InternalEventPayload|
                is_import_request(payload, content@) && res.0@ == #[trigger] exchange_with(
                    payload,
                    old(self)@.plugins,
                    rx_id@,
                    event_ids@,
                ),
            res.1@ == collector_of(event_ids@),
            res.0@.outbound.len() == old(self)@.plugins.len(),
            forall|i: int|
                0 <= i < res.0@.outbound.len() ==> ((
                #[trigger] res.0@.outbound[i]).event.payload matches InternalEventPayload::ImportRequest(
                    req,
                ) && req.content@ == content@),
    {
        let payload = InternalEventPayload::ImportRequest(
            ImportRequest { content: content.to_owned() },
        );
        self.send_and_wait(&payload, rx_id, event_ids)
    }

    /// Whether [`PluginManager::imported_data`] can name the plugin that imported: it
    /// cannot where that plugin is listed but has not started.
    pub fn knows_importer(&self, replies: &Result<Vec<InternalEvent>, Error>) -> (res: bool)
        ensures
            res == (replies matches Ok(events) ==> self@.knows_importer(events@)),
    {
        match replies {
            Err(_) => true,
            Ok(events) => {
                let at = position_of_import(events);
                if at == events.len() {
                    true
                } else {
                    match self.get_plugin_by_ref_id(events[at].plugin_ref_id.as_str()) {
                        Some(plugin) => self.info(&plugin).is_some(),
                        None => true,
                    }
                }
            },
        }
    }

    /// The first import among the replies, with the name of the plugin that made it.
    pub fn imported_data(&self, replies: Result<Vec<InternalEvent>, Error>) -> (res: Result<
        (ImportResponse, String),
        Error,
    >)
        requires
            replies matches Ok(events) ==> self@.knows_importer(events@),
        ensures
            match replies {
                Err(error) => res == Err::<(ImportResponse, String), Error>(error),
                Ok(events) => match find_map(events@, import_in()) {
                    None => res matches Err(e) && is_plugin_error(
                        e,
                        "No importers found for file contents"@,
                    ),
                    Some(import) => match self@.by_ref_id(import.1@) {
                        None => res matches Err(e) && is_not_found(e, import.1@),
                        Some(plugin) => res == Ok::<(ImportResponse, String), Error>(
                            (import.0, self@.info(plugin)->0.name),
                        ),
                    },
                },
            },
    {
        let events = match replies {
            Ok(events) => events,
            Err(error) => {
                return Err(error);
            },
        };
        let at = position_of_import(&events);
        if at == events.len() {
            return Err(Error::PluginErr("No importers found for file contents".to_owned()));
        }
        let ref_id = events[at].plugin_ref_id.clone();
        let plugin = match self.get_plugin_by_ref_id(ref_id.as_str()) {
            Some(plugin) => plugin,
            None => {
                return Err(Error::PluginNotFoundErr(ref_id));
            },
        };
        let info = self.info(&plugin).unwrap();
        match &events[at].payload {
            InternalEventPayload::ImportResponse(resp) => Ok((resp.clone(), info.name)),
            _ => Err(Error::UnknownEventErr),
        }
    }

    /// Asks the plugin for this type of content to filter it. The ids are to be
    /// fresh; the reply goes to [`PluginManager::filtered_data`].
    pub fn filter_data(
        &mut self,
        filter: &str,
        content: &str,
        content_type: &str,
        rx_id: String,
        event_id: String,
    ) -> (res: Result<(Exchange, ReplyCollector), Error>)
        requires
            old(self).wf(),
        ensures
            final(self).wf(),
            is_ascii_chars(content_type@) ==> lowercase(content_type@) == content_type@.map_values(
                |c: char| ascii_lowercase(c),
            ),
            match old(self)@.by_dir(filter_plugin_dir(lowercase(content_type@))) {
                None => {
                    &&& final(self)@ == old(self)@
                    &&& res matches Err(e)
                    &&& is_not_found(e, filter_plugin_dir(lowercase(content_type@)))
                },
                Some(plugin) => {
                    &&& final(self)@ == old(self)@.subscribed(rx_id@)
                    &&& res matches Ok(ask)
                    &&& asks_one(
                        ask.0@,
                        ask.1@,
                        plugin,
                        |p: InternalEventPayload| is_filter_request(p, filter@, content@),
                        rx_id@,
                        event_id,
                    )
                    &&& ask.0@.outbound.len() == 1
                    &&& ask.0@.outbound[0].plugin == plugin
                    &&& ask.0@.outbound[0].event.payload matches InternalEventPayload::FilterRequest(
                        req,
                    )
                    &&& req.filter@ == filter@
                    &&& req.content@ == content@
                },
            },
    {
        let lowered_type = content_type.to_lowercase();
        self.filter_data_of_type(filter, content, lowered_type.as_str(), rx_id, event_id)
    }

    /// The same for a type of content that is in lower case already.
    pub fn filter_data_of_type(
        &mut self,
        filter: &str,
        content: &str,
        lowered_type: &str,
        rx_id: String,
        event_id: String,
    ) -> (res: Result<(Exchange, ReplyCollector), Error>)
        requires
            old(self).wf(),
        ensures
            final(self).wf(),
            match old(self)@.by_dir(filter_plugin_dir(lowered_type@)) {
                None => {
                    &&& final(self)@ == old(self)@
                    &&& res matches Err(e)
                    &&& is_not_found(e, filter_plugin_dir(lowered_type@))
                },
                Some(plugin) => {
                    &&& final(self)@ == old(self)@.subscribed(rx_id@)
                    &&& res matches Ok(ask)
                    &&& asks_one(
                        ask.0@,
                        ask.1@,
                        plugin,
                        |p: InternalEventPayload| is_filter_request(p, filter@, content@),
                        rx_id@,
                        event_id,
                    )
                    &&& ask.0@.outbound.len() == 1
                    &&& ask.0@.outbound[0].plugin == plugin
                    &&& ask.0@.outbound[0].event.payload matches InternalEventPayload::FilterRequest(
                        req,
                    )
                    &&& req.filter@ == filter@
                    &&& req.content@ == content@
                },
            },
    {
        let plugin_name = if contains(lowered_type, "json") {
            "filter-jsonpath"
        } else {
            "filter-xpath"
        };
        let plugin = match self.get_plugin_by_dir(plugin_name) {
            Some(plugin) => plugin,
            None => {
                return Err(Error::PluginNotFoundErr(plugin_name.to_owned()));
            },
        };
        let payload = InternalEventPayload::FilterRequest(
            FilterRequest { filter: filter.to_owned(), content: content.to_owned() },
        );
        Ok(self.send_to_plugin_and_wait(&plugin, &payload, rx_id, event_id))
    }

    /// The filtered content in a reply. `rendered` is the reply's payload in words,
    /// for the error that a reply of the wrong kind gives.
    pub fn filtered_data(reply: Result<InternalEvent, Error>, rendered: &str) -> (res: Result<
        FilterResponse,
        Error,
    >)
        ensures
            match reply {
                Err(error) => res == Err::<FilterResponse, Error>(error),
                Ok(event) => match event.payload {
                    InternalEventPayload::FilterResponse(resp) => res == Ok::<
                        FilterResponse,
                        Error,
                    >(resp),
                    InternalEventPayload::EmptyResponse => res matches Err(e) && is_plugin_error(
                        e,
                        "Filter returned empty"@,
                    ),
                    _ => res matches Err(e) && is_plugin_error(
                        e,
                        "Export returned invalid event "@ + rendered@,
                    ),
                },
            },
    {
        let event = match reply {
            Ok(event) => event,
            Err(error) => {
                return Err(error);
            },
        };
        match event.payload {
            InternalEventPayload::FilterResponse(resp) => Ok(resp),
            InternalEventPayload::EmptyResponse => {
                Err(Error::PluginErr("Filter returned empty".to_owned()))
            },
            _ => {
                let mut text = "Export returned invalid event ".to_owned();
                text.append(rendered);
                Err(Error::PluginErr(text))
            },
        }
    }

    /// The reply of a plugin that was asked alone: the first one. A request to one
    /// plugin is waited for until there is one.
    pub fn first_reply(replies: Result<Vec<InternalEvent>, Error>) -> (res: Result<
        InternalEvent,
        Error,
    >)
        requires
            replies matches Ok(events) ==> events@.len() > 0,
        ensures
            match replies {
                Err(error) => res == Err::<InternalEvent, Error>(error),
                Ok(events) => res == Ok::<InternalEvent, Error>(events@[0]),
            },
    {
        match replies {
            Ok(events) => Ok(events[0].clone()),
            Err(error) => Err(error),
        }
    }
}

} // verus!
