//! What holds of the requests to plugins, and of what is read from their replies.

use crate::error::Error;
use crate::events::{
    GetHttpRequestActionsResponse, GetTemplateFunctionsResponse, ImportResponse, InternalEvent,
    InternalEventPayload, RenderPurpose,
};
use crate::exchange::{collector_of, exchange_with, CollectorState, ExchangeState};
use crate::manager::{asks_one, is_not_found, Boot, ManagerState};
use crate::plugin_handle::{event_to, has_ref_id, PluginHandle};
use crate::requests::{
    filter_plugin_dir, http_request_actions_in, import_in, is_filter_request, is_import_request,
    is_plugin_error, is_template_call, template_functions_in, template_value_in,
};
use crate::search::{find_map, first_index, lemma_first_index};
use crate::text::{contains_text, occurs_at};
use std::collections::HashMap;
use vstd::prelude::*;

verus! {

// Events

/// An event for a plugin carries the payload that it was given, whether or not it
/// answers another event, under the given id, and names the plugin and the event that
/// it answers.
pub proof fn law_event_carries_its_payload(
    plugin: PluginHandle,
    payload: InternalEventPayload,
    reply_id: Option<String>,
    id: String,
)
    ensures
        event_to(plugin, payload, reply_id, id).payload == payload,
        event_to(plugin, payload, reply_id, id).id == id,
        event_to(plugin, payload, reply_id, id).plugin_ref_id == plugin.ref_id,
        event_to(plugin, payload, reply_id, id).reply_id == reply_id,
{
}

/// What an answer says does not depend on what it answers, and two answers with
/// different payloads are different events.
pub proof fn law_answers_differ_with_their_payloads(
    plugin: PluginHandle,
    first: InternalEventPayload,
    second: InternalEventPayload,
    source: String,
    other: Option<String>,
    id: String,
)
    ensures
        event_to(plugin, first, Some(source), id).payload == event_to(
            plugin,
            first,
            other,
            id,
        ).payload,
        first != second ==> event_to(plugin, first, Some(source), id) != event_to(
            plugin,
            second,
            Some(source),
            id,
        ),
{
}

// Asking

/// A request goes to each plugin once, in their order: one event under each id, which
/// names that plugin, answers nothing and carries the payload. It is handed to the
/// first plugin with that reference id. Nothing has been sent yet.
pub proof fn law_request_goes_to_each_plugin(
    payload: InternalEventPayload,
    plugins: Seq<PluginHandle>,
    rx_id: Seq<char>,
    event_ids: Seq<String>,
)
    requires
        event_ids.len() == plugins.len(),
    ensures
        ({
            let exchange = exchange_with(payload, plugins, rx_id, event_ids);
            &&& exchange.rx_id == rx_id
            &&& exchange.sent == 0
            &&& exchange.outbound.len() == plugins.len()
            &&& forall|i: int|
                #![trigger exchange.outbound[i]]
                0 <= i < plugins.len() ==> {
                    let out = exchange.outbound[i];
                    &&& out.event.id == event_ids[i]
                    &&& out.event.plugin_ref_id == plugins[i].ref_id
                    &&& out.event.reply_id is None
                    &&& out.event.payload == payload
                    &&& exists|k: int|
                        #![trigger plugins[k]]
                        0 <= k <= i && plugins[k] == out.plugin && plugins[k].ref_id@
                            == plugins[i].ref_id@ && forall|j: int|
                            0 <= j < k ==> (#[trigger] plugins[j]).ref_id@ != plugins[i].ref_id@
                }
        }),
{
    let exchange = exchange_with(payload, plugins, rx_id, event_ids);
    assert forall|i: int| #![trigger exchange.outbound[i]] 0 <= i < plugins.len() implies {
        let out = exchange.outbound[i];
        &&& out.event.id == event_ids[i]
        &&& out.event.plugin_ref_id == plugins[i].ref_id
        &&& out.event.reply_id is None
        &&& out.event.payload == payload
        &&& exists|k: int|
            #![trigger plugins[k]]
            0 <= k <= i && plugins[k] == out.plugin && plugins[k].ref_id@ == plugins[i].ref_id@
                && forall|j: int|
                0 <= j < k ==> (#[trigger] plugins[j]).ref_id@ != plugins[i].ref_id@
    } by {
        let pred = has_ref_id(plugins[i].ref_id@);
        lemma_first_index(plugins, pred);
        let k = first_index(plugins, pred);
        assert(k <= i) by {
            if i < k {
                assert(!pred(plugins[i]));
            }
        }
        assert(plugins[k].ref_id@ == plugins[i].ref_id@);
        assert forall|j: int| 0 <= j < k implies (#[trigger] plugins[j]).ref_id@
            != plugins[i].ref_id@ by {
            assert(!pred(plugins[j]));
        }
    }
}

/// The collector of a request has nothing yet, and waits for one reply for each event
/// of the request: its ids are those of the events.
pub proof fn law_collector_waits_for_what_is_sent(
    payload: InternalEventPayload,
    plugins: Seq<PluginHandle>,
    rx_id: Seq<char>,
    event_ids: Seq<String>,
)
    requires
        event_ids.len() == plugins.len(),
    ensures
        ({
            let sent = exchange_with(payload, plugins, rx_id, event_ids).outbound;
            let collector = collector_of(event_ids);
            &&& collector.found.len() == 0
            &&& collector.expected.len() == sent.len()
            &&& forall|i: int|
                #![trigger collector.expected[i]]
                0 <= i < sent.len() ==> collector.expected[i] == sent[i].event.id@
        }),
{
}

/// An event is kept, behind what was kept before, if it names one of the expected ids
/// as the one that it answers. Any other event, and so one that answers nothing,
/// leaves the collector as it was, whatever it carries.
pub proof fn law_kept_event_names_what_it_answers(collector: CollectorState, event: InternalEvent)
    ensures
        (event.reply_id matches Some(id) && exists|k: int|
            0 <= k < collector.expected.len() && id@ == #[trigger] collector.expected[k])
            ==> collector.offered(event).found == collector.found.push(event),
        !(event.reply_id matches Some(id) && exists|k: int|
            0 <= k < collector.expected.len() && id@ == #[trigger] collector.expected[k])
            ==> collector.offered(event).found == collector.found,
        event.reply_id is None ==> collector.offered(event) == collector,
        collector.offered(event).expected == collector.expected,
{
}

/// The wait is over when there are as many replies as there were events, no sooner and
/// no later.
pub proof fn law_wait_ends_with_the_last_reply(collector: CollectorState, event: InternalEvent)
    ensures
        collector.offered(event).is_full() <==> collector.offered(event).found.len()
            == collector.expected.len(),
{
}

/// Whatever comes in, every event that the collector of a request has in the end
/// answers an event that was sent, and names it.
pub proof fn law_replies_name_what_was_sent(
    payload: InternalEventPayload,
    plugins: Seq<PluginHandle>,
    rx_id: Seq<char>,
    event_ids: Seq<String>,
    stream: Seq<InternalEvent>,
)
    requires
        event_ids.len() == plugins.len(),
    ensures
        ({
            let sent = exchange_with(payload, plugins, rx_id, event_ids).outbound;
            let found = collector_of(event_ids).run(stream).found;
            forall|i: int|
                #![trigger found[i]]
                0 <= i < found.len() ==> (found[i].reply_id matches Some(id) && exists|k: int|
                    0 <= k < sent.len() && id@ == (#[trigger] sent[k]).event.id@)
        }),
{
    let sent = exchange_with(payload, plugins, rx_id, event_ids).outbound;
    let collector = collector_of(event_ids);
    let found = collector.run(stream).found;
    lemma_found_name_expected(collector, stream);
    assert forall|i: int|
        #![trigger found[i]]
        0 <= i < found.len() implies (found[i].reply_id matches Some(id) && exists|k: int|
        0 <= k < sent.len() && id@ == (#[trigger] sent[k]).event.id@) by {
        let id = found[i].reply_id->0;
        let k = choose|k: int|
            0 <= k < collector.expected.len() && id@ == #[trigger] collector.expected[k];
        assert(sent[k].event.id@ == id@);
    }
}

/// A collector that has only replies to what it expects stays so.
proof fn lemma_found_name_expected(collector: CollectorState, stream: Seq<InternalEvent>)
    requires
        forall|i: int|
            #![trigger collector.found[i]]
            0 <= i < collector.found.len() ==> (collector.found[i].reply_id matches Some(id)
                && exists|k: int|
                0 <= k < collector.expected.len() && id@ == #[trigger] collector.expected[k]),
    ensures
        ({
            let found = collector.run(stream).found;
            forall|i: int|
                #![trigger found[i]]
                0 <= i < found.len() ==> (found[i].reply_id matches Some(id) && exists|k: int|
                    0 <= k < collector.expected.len() && id@ == #[trigger] collector.expected[k])
        }),
    decreases stream.len(),
{
    if stream.len() > 0 {
        let next = collector.offered(stream[0]);
        law_kept_event_names_what_it_answers(collector, stream[0]);
        assert(next.expected == collector.expected);
        assert forall|i: int|
            #![trigger next.found[i]]
            0 <= i < next.found.len() implies (next.found[i].reply_id matches Some(id)
            && exists|k: int|
            0 <= k < next.expected.len() && id@ == #[trigger] next.expected[k]) by {
            if i < collector.found.len() {
                assert(next.found[i] == collector.found[i]);
                let id = collector.found[i].reply_id->0;
                let k = choose|k: int|
                    0 <= k < collector.expected.len() && id@ == #[trigger] collector.expected[k];
                assert(next.expected[k] == id@);
            } else {
                assert(next.found[i] == stream[0]);
            }
        }
        if !next.is_full() {
            lemma_found_name_expected(next, stream.drop_first());
        }
    }
}

/// A request to one plugin is one event for that plugin, and the collector waits for
/// the reply to it alone.
pub proof fn law_one_plugin_is_asked(
    exchange: ExchangeState,
    collector: CollectorState,
    plugin: PluginHandle,
    kind: spec_fn(InternalEventPayload) -> bool,
    rx_id: Seq<char>,
    event_id: String,
)
    requires
        asks_one(exchange, collector, plugin, kind, rx_id, event_id),
    ensures
        exchange.rx_id == rx_id,
        exchange.sent == 0,
        exchange.outbound.len() == 1,
        exchange.outbound[0].plugin == plugin,
        exchange.outbound[0].event.id == event_id,
        exchange.outbound[0].event.plugin_ref_id == plugin.ref_id,
        exchange.outbound[0].event.reply_id is None,
        kind(exchange.outbound[0].event.payload),
        collector.expected == seq![event_id@],
        collector.found.len() == 0,
{
}

/// A plugin that is started is sent one event, that asks it to start from exactly the
/// directory.
pub proof fn law_start_names_the_directory(
    boot: Boot,
    plugin: PluginHandle,
    dir: Seq<char>,
    rx_id: Seq<char>,
    event_id: String,
)
    requires
        boot.asks(plugin, dir, rx_id, event_id),
    ensures
        boot.plugin == plugin,
        boot.exchange@.rx_id == rx_id,
        boot.exchange@.sent == 0,
        boot.exchange@.outbound.len() == 1,
        boot.exchange@.outbound[0].plugin == plugin,
        boot.exchange@.outbound[0].event.id == event_id,
        boot.exchange@.outbound[0].event.plugin_ref_id == plugin.ref_id,
        boot.exchange@.outbound[0].event.reply_id is None,
        boot.exchange@.outbound[0].event.payload matches InternalEventPayload::BootRequest(req)
            && req.dir@ == dir,
        boot.collector@.expected == seq![event_id@],
        boot.collector@.found.len() == 0,
{
}

/// Each plugin that is asked to import gets the whole text, character by character.
pub proof fn law_import_carries_the_text(
    payload: InternalEventPayload,
    text: Seq<char>,
    plugins: Seq<PluginHandle>,
    rx_id: Seq<char>,
    event_ids: Seq<String>,
    i: int,
)
    requires
        is_import_request(payload, text),
        event_ids.len() == plugins.len(),
        0 <= i < plugins.len(),
    ensures
        exchange_with(payload, plugins, rx_id, event_ids).outbound[i].event.payload matches InternalEventPayload::ImportRequest(
            req,
        ) && req.content@ == text,
{
}

/// Two files that differ are two different requests to import.
pub proof fn law_imports_of_two_texts_differ(
    first: InternalEventPayload,
    first_text: Seq<char>,
    second: InternalEventPayload,
    second_text: Seq<char>,
)
    requires
        is_import_request(first, first_text),
        is_import_request(second, second_text),
    ensures
        first_text != second_text ==> first != second,
{
}

/// A plugin that is asked to filter gets the filter and the content, each character by
/// character, and each in its place.
pub proof fn law_filter_carries_both_texts(
    exchange: ExchangeState,
    collector: CollectorState,
    plugin: PluginHandle,
    filter: Seq<char>,
    content: Seq<char>,
    rx_id: Seq<char>,
    event_id: String,
)
    requires
        asks_one(
            exchange,
            collector,
            plugin,
            |p: InternalEventPayload| is_filter_request(p, filter, content),
            rx_id,
            event_id,
        ),
    ensures
        exchange.outbound[0].event.payload matches InternalEventPayload::FilterRequest(req)
            && req.filter@ == filter && req.content@ == content,
{
}

/// Two filters, or two contents, that differ are two different requests to filter.
pub proof fn law_filters_of_two_texts_differ(
    first: InternalEventPayload,
    first_filter: Seq<char>,
    first_content: Seq<char>,
    second: InternalEventPayload,
    second_filter: Seq<char>,
    second_content: Seq<char>,
)
    requires
        is_filter_request(first, first_filter, first_content),
        is_filter_request(second, second_filter, second_content),
    ensures
        first_filter != second_filter || first_content != second_content ==> first != second,
{
}

/// Each plugin that is asked for a template value gets the function's name, the
/// arguments and the purpose as they were given.
pub proof fn law_template_call_carries_its_arguments(
    payload: InternalEventPayload,
    fn_name: Seq<char>,
    args: HashMap<String, String>,
    purpose: RenderPurpose,
    plugins: Seq<PluginHandle>,
    rx_id: Seq<char>,
    event_ids: Seq<String>,
    i: int,
)
    requires
        is_template_call(payload, fn_name, args, purpose),
        event_ids.len() == plugins.len(),
        0 <= i < plugins.len(),
    ensures
        exchange_with(payload, plugins, rx_id, event_ids).outbound[i].event.payload matches InternalEventPayload::CallTemplateFunctionRequest(
            req,
        ) && req.name@ == fn_name && *req.args.values == args && req.args.purpose == purpose,
{
}

// The plugin for a type of content

/// Content whose type has `json` anywhere in it, with any text before and after, is
/// filtered by the plugin for JSON.
pub proof fn law_json_anywhere_is_json(before: Seq<char>, after: Seq<char>)
    ensures
        filter_plugin_dir(before + seq!['j', 's', 'o', 'n'] + after) == "filter-jsonpath"@,
{
    let lowered = before + seq!['j', 's', 'o', 'n'] + after;
    let at = before.len() as int;
    reveal_strlit("json");
    assert(lowered.subrange(at, at + 4) =~= seq!['j', 's', 'o', 'n']);
    assert("json"@ =~= seq!['j', 's', 'o', 'n']);
    assert(occurs_at(lowered, "json"@, at));
}

/// The plugin for JSON is asked exactly where the four letters stand in the type one
/// after the other; everything else goes to the plugin for XML.
pub proof fn law_filter_plugin_goes_by_the_letters(lowered_type: Seq<char>)
    ensures
        (exists|k: int|
            #![trigger lowered_type[k]]
            0 <= k && k + 3 < lowered_type.len() && lowered_type[k] == 'j' && lowered_type[k + 1]
                == 's' && lowered_type[k + 2] == 'o' && lowered_type[k + 3] == 'n')
            ==> filter_plugin_dir(lowered_type) == "filter-jsonpath"@,
        !(exists|k: int|
            #![trigger lowered_type[k]]
            0 <= k && k + 3 < lowered_type.len() && lowered_type[k] == 'j' && lowered_type[k + 1]
                == 's' && lowered_type[k + 2] == 'o' && lowered_type[k + 3] == 'n')
            ==> filter_plugin_dir(lowered_type) == "filter-xpath"@,
{
    reveal_strlit("json");
    let json = seq!['j', 's', 'o', 'n'];
    assert("json"@ =~= json);
    if exists|k: int|
        #![trigger lowered_type[k]]
        0 <= k && k + 3 < lowered_type.len() && lowered_type[k] == 'j' && lowered_type[k + 1] == 's'
            && lowered_type[k + 2] == 'o' && lowered_type[k + 3] == 'n' {
        let k = choose|k: int|
            #![trigger lowered_type[k]]
            0 <= k && k + 3 < lowered_type.len() && lowered_type[k] == 'j' && lowered_type[k + 1]
                == 's' && lowered_type[k + 2] == 'o' && lowered_type[k + 3] == 'n';
        assert(lowered_type.take(k) + json + lowered_type.skip(k + 4) =~= lowered_type);
        law_json_anywhere_is_json(lowered_type.take(k), lowered_type.skip(k + 4));
    } else if contains_text(lowered_type, "json"@) {
        let k = choose|k: int| occurs_at(lowered_type, "json"@, k);
        let part = lowered_type.subrange(k, k + 4);
        assert(part[0] == 'j' && part[1] == 's' && part[2] == 'o' && part[3] == 'n');
        assert(lowered_type[k] == part[0]);
        assert(lowered_type[k + 1] == part[1]);
        assert(lowered_type[k + 2] == part[2]);
        assert(lowered_type[k + 3] == part[3]);
    }
}

/// A text stands in another exactly where that is the text with something before and
/// after it.
pub proof fn law_text_is_found_where_it_stands(text: Seq<char>, needle: Seq<char>)
    ensures
        forall|before: Seq<char>, after: Seq<char>|
            text == #[trigger] (before + needle + after) ==> contains_text(text, needle),
        contains_text(text, needle) ==> exists|before: Seq<char>, after: Seq<char>|
            text == #[trigger] (before + needle + after),
{
    assert forall|before: Seq<char>, after: Seq<char>|
        text == #[trigger] (before + needle + after) implies contains_text(text, needle) by {
        let at = before.len() as int;
        assert(text.subrange(at, at + needle.len()) =~= needle);
        assert(occurs_at(text, needle, at));
    }
    if contains_text(text, needle) {
        let at = choose|at: int| occurs_at(text, needle, at);
        let before = text.take(at);
        let after = text.skip(at + needle.len());
        assert(text.subrange(at, at + needle.len()) == needle);
        assert(text =~= before + needle + after);
    }
}

// Reading replies

/// The HTTP request actions are those that the replies carry, in the order of the
/// replies: one reply more adds what it carries at the end, and nothing where it is of
/// another kind.
pub proof fn law_one_reply_more_adds_its_actions(events: Seq<InternalEvent>, event: InternalEvent)
    ensures
        Seq::<InternalEvent>::empty().filter_map(http_request_actions_in()) == Seq::<
            GetHttpRequestActionsResponse,
        >::empty(),
        events.push(event).filter_map(http_request_actions_in()) == (match event.payload {
            InternalEventPayload::GetHttpRequestActionsResponse(resp) => events.filter_map(
                http_request_actions_in(),
            ).push(resp),
            _ => events.filter_map(http_request_actions_in()),
        }),
{
    assert(events.push(event).drop_last() =~= events);
}

/// The same for the template functions.
pub proof fn law_one_reply_more_adds_its_functions(
    events: Seq<InternalEvent>,
    event: InternalEvent,
)
    ensures
        Seq::<InternalEvent>::empty().filter_map(template_functions_in()) == Seq::<
            GetTemplateFunctionsResponse,
        >::empty(),
        events.push(event).filter_map(template_functions_in()) == (match event.payload {
            InternalEventPayload::GetTemplateFunctionsResponse(resp) => events.filter_map(
                template_functions_in(),
            ).push(resp),
            _ => events.filter_map(template_functions_in()),
        }),
{
    assert(events.push(event).drop_last() =~= events);
}

/// The event is a reply to a template call that gives this value.
pub open spec fn gives_value(event: InternalEvent, value: String) -> bool {
    event.payload matches InternalEventPayload::CallTemplateFunctionResponse(resp) && resp.value
        == Some(value)
}

/// The value of a template function is the one in the first reply that gives any, and
/// there is none only where no reply gives one.
pub proof fn law_template_value_is_the_first(events: Seq<InternalEvent>)
    ensures
        match find_map(events, template_value_in()) {
            Some(value) => exists|i: int|
                #![trigger events[i]]
                0 <= i < events.len() && gives_value(events[i], value) && forall|j: int, v: String|
                    0 <= j < i ==> !#[trigger] gives_value(events[j], v),
            None => forall|j: int, v: String|
                0 <= j < events.len() ==> !#[trigger] gives_value(events[j], v),
        },
{
    let pred = |x: InternalEvent| template_value_in()(x) is Some;
    lemma_first_index(events, pred);
    let i = first_index(events, pred);
    assert forall|j: int, v: String| 0 <= j < i implies !#[trigger] gives_value(events[j], v) by {
        assert(!pred(events[j]));
    }
    if i < events.len() {
        assert(pred(events[i]));
        assert(gives_value(events[i], find_map(events, template_value_in())->0));
    }
}

/// The import is the one in the first reply that is an import, with the plugin that the
/// reply names, and there is none only where no reply is an import.
pub proof fn law_import_is_the_first(events: Seq<InternalEvent>)
    ensures
        match find_map(events, import_in()) {
            Some(import) => exists|i: int|
                #![trigger events[i]]
                0 <= i < events.len() && events[i].payload
                    == InternalEventPayload::ImportResponse(import.0) && events[i].plugin_ref_id
                    == import.1 && forall|j: int|
                    0 <= j < i ==> !((#[trigger] events[j]).payload is ImportResponse),
            None => forall|j: int|
                0 <= j < events.len() ==> !((#[trigger] events[j]).payload is ImportResponse),
        },
{
    let pred = |x: InternalEvent| import_in()(x) is Some;
    lemma_first_index(events, pred);
    let i = first_index(events, pred);
    assert forall|j: int| 0 <= j < i implies !((
    #[trigger] events[j]).payload is ImportResponse) by {
        assert(!pred(events[j]));
    }
    if i < events.len() {
        assert(pred(events[i]));
    }
}

/// The importer can be named unless the plugin that sent the first import is listed and
/// has not started.
pub proof fn law_importer_is_known_once_started(
    state: ManagerState,
    events: Seq<InternalEvent>,
    i: int,
    resp: ImportResponse,
)
    requires
        0 <= i < events.len(),
        events[i].payload == InternalEventPayload::ImportResponse(resp),
        forall|j: int| 0 <= j < i ==> !((#[trigger] events[j]).payload is ImportResponse),
    ensures
        state.knows_importer(events) <==> match state.by_ref_id(events[i].plugin_ref_id@) {
            Some(plugin) => state.info(plugin) is Some,
            None => true,
        },
        find_map(events, import_in()) == Some((resp, events[i].plugin_ref_id)),
{
    law_import_is_the_first(events);
    let import = find_map(events, import_in());
    if import is None {
        assert(!(events[i].payload is ImportResponse));
    } else {
        let (first, from) = import->0;
        let k = choose|k: int|
            #![trigger events[k]]
            0 <= k < events.len() && events[k].payload == InternalEventPayload::ImportResponse(
                first,
            ) && events[k].plugin_ref_id == from && forall|j: int|
                0 <= j < k ==> !((#[trigger] events[j]).payload is ImportResponse);
        if k < i {
            assert(!(events[k].payload is ImportResponse));
        }
        if i < k {
            assert(!(events[i].payload is ImportResponse));
        }
    }
}

// Errors

/// An error that names something says exactly that text: of two different texts, the
/// errors differ.
pub proof fn law_errors_name_their_texts(error: Error, text: Seq<char>)
    ensures
        is_not_found(error, text) <==> match error {
            Error::PluginNotFoundErr(t) => t@ == text,
            _ => false,
        },
        is_plugin_error(error, text) <==> match error {
            Error::PluginErr(t) => t@ == text,
            _ => false,
        },
        forall|other: Seq<char>| #[trigger]
            is_not_found(error, other) && is_not_found(error, text) ==> other == text,
        forall|other: Seq<char>| #[trigger]
            is_plugin_error(error, other) && is_plugin_error(error, text) ==> other == text,
{
}

} // verus!
