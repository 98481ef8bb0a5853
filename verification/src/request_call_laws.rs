//! What the requests to plugins send, and what is read from the replies, said of the
//! calls.

use crate::call_laws::{
    asks_each, is_first_from, is_first_with, is_joined_by, lemma_asks_each, lemma_first_from,
    lemma_first_with, said_by,
};
use crate::error::Error;
use crate::events::{
    CallHttpRequestActionRequest, FilterResponse, GetHttpRequestActionsRequest,
    GetHttpRequestActionsResponse, GetTemplateFunctionsResponse, ImportResponse, InternalEvent,
    InternalEventPayload, RenderPurpose,
};
use crate::exchange::{exchange_with, Exchange, Outbound, ReplyCollector};
use crate::manager::PluginManager;
use crate::path_laws::{
    is_same_path, is_usual, law_capital_letters_are_lowered, law_drive_is_taken_off,
    law_fixed_path_has_lost_its_drive, law_only_slashes_are_turned, law_path_without_drive_stays,
    law_read_adds_a_directory, law_text_without_drive_is_kept, law_verbatim_path_keeps_its_rest,
};
use crate::paths::{fix_simplified_path, fix_windows_paths, strip_drive, DirListing, EntryRead};
use crate::plugin_handle::PluginHandle;
use crate::request_laws::{
    gives_value, law_filter_plugin_goes_by_the_letters, law_importer_is_known_once_started,
    law_import_is_the_first, law_one_plugin_is_asked, law_one_reply_more_adds_its_actions,
    law_one_reply_more_adds_its_functions, law_template_value_is_the_first,
    law_text_is_found_where_it_stands,
};
use crate::requests::{
    import_in, is_filter_request, is_import_request, is_template_call, template_value_in,
};
use crate::search::find_map;
use crate::text::{ascii_lowercase, contains, lowercase};
use std::collections::HashMap;
use vstd::prelude::*;
use vstd::utf8::is_ascii_chars;

verus! {

// What is sent

/// Every plugin is asked for its HTTP request actions.
pub proof fn law_get_http_request_actions(
    manager: &mut PluginManager,
    rx_id: String,
    event_ids: Vec<String>,
    res: (Exchange, ReplyCollector),
)
    requires
        event_ids@.len() == old(manager)@.plugins.len(),
        call_ensures(PluginManager::get_http_request_actions, (manager, rx_id, event_ids), res),
    ensures
        asks_each(res.0, res.1, old(manager)@.plugins, rx_id@, event_ids@),
        forall|i: int|
            0 <= i < old(manager)@.plugins.len() ==> (
            #[trigger] res.0@.outbound[i]).event.payload is GetHttpRequestActionsRequest,
        is_joined_by(old(manager)@, final(manager)@, rx_id@),
{
    let payload = InternalEventPayload::GetHttpRequestActionsRequest(
        GetHttpRequestActionsRequest {  },
    );
    lemma_asks_each(res.0, res.1, payload, old(manager)@.plugins, rx_id@, event_ids@);
}

/// Every plugin is asked for its template functions.
pub proof fn law_get_template_functions(
    manager: &mut PluginManager,
    rx_id: String,
    event_ids: Vec<String>,
    res: (Exchange, ReplyCollector),
)
    requires
        event_ids@.len() == old(manager)@.plugins.len(),
        call_ensures(PluginManager::get_template_functions, (manager, rx_id, event_ids), res),
    ensures
        asks_each(res.0, res.1, old(manager)@.plugins, rx_id@, event_ids@),
        forall|i: int|
            0 <= i < old(manager)@.plugins.len() ==> (
            #[trigger] res.0@.outbound[i]).event.payload is GetTemplateFunctionsRequest,
        is_joined_by(old(manager)@, final(manager)@, rx_id@),
{
    lemma_asks_each(
        res.0,
        res.1,
        InternalEventPayload::GetTemplateFunctionsRequest,
        old(manager)@.plugins,
        rx_id@,
        event_ids@,
    );
}

/// The first plugin with the id that the request names is to run its action, with the
/// request as it is; without one, the id is the error.
pub proof fn law_call_http_request_action(
    manager: &PluginManager,
    req: CallHttpRequestActionRequest,
    event_id: String,
    res: Result<Outbound, Error>,
    i: int,
)
    requires
        call_ensures(PluginManager::call_http_request_action, (manager, req, event_id), res),
    ensures
        is_first_with(manager@.plugins, i, req.plugin_ref_id@) ==> (res matches Ok(out)
            && out.plugin == manager@.plugins[i] && out.event.id == event_id
            && out.event.plugin_ref_id@ == req.plugin_ref_id@ && out.event.reply_id is None
            && out.event.payload == InternalEventPayload::CallHttpRequestActionRequest(req)),
        (forall|j: int|
            0 <= j < manager@.plugins.len() ==> (#[trigger] manager@.plugins[j]).ref_id@
                != req.plugin_ref_id@) ==> (res matches Err(Error::PluginNotFoundErr(text))
            && text@ == req.plugin_ref_id@),
{
    lemma_first_with(manager, req.plugin_ref_id@);
}

/// Every plugin is asked for the value, with the name, the arguments and the purpose as
/// they were given.
pub proof fn law_call_template_function(
    manager: &mut PluginManager,
    fn_name: &str,
    args: HashMap<String, String>,
    purpose: RenderPurpose,
    rx_id: String,
    event_ids: Vec<String>,
    res: (Exchange, ReplyCollector),
)
    requires
        event_ids@.len() == old(manager)@.plugins.len(),
        call_ensures(
            PluginManager::call_template_function,
            (manager, fn_name, args, purpose, rx_id, event_ids),
            res,
        ),
    ensures
        asks_each(res.0, res.1, old(manager)@.plugins, rx_id@, event_ids@),
        forall|i: int|
            0 <= i < old(manager)@.plugins.len() ==> ((
            #[trigger] res.0@.outbound[i]).event.payload matches InternalEventPayload::CallTemplateFunctionRequest(
            req) && req.name@ == fn_name@ && *req.args.values == args && req.args.purpose
                == purpose),
        is_joined_by(old(manager)@, final(manager)@, rx_id@),
{
    let payload = choose|payload: InternalEventPayload|
        is_template_call(payload, fn_name@, args, purpose) && res.0@ == #[trigger] exchange_with(
            payload,
            old(manager)@.plugins,
            rx_id@,
            event_ids@,
        );
    lemma_asks_each(res.0, res.1, payload, old(manager)@.plugins, rx_id@, event_ids@);
}

/// Every plugin is asked to import exactly the given text.
pub proof fn law_import_data(
    manager: &mut PluginManager,
    content: &str,
    rx_id: String,
    event_ids: Vec<String>,
    res: (Exchange, ReplyCollector),
)
    requires
        event_ids@.len() == old(manager)@.plugins.len(),
        call_ensures(PluginManager::import_data, (manager, content, rx_id, event_ids), res),
    ensures
        asks_each(res.0, res.1, old(manager)@.plugins, rx_id@, event_ids@),
        forall|i: int|
            0 <= i < old(manager)@.plugins.len() ==> ((
            #[trigger] res.0@.outbound[i]).event.payload matches InternalEventPayload::ImportRequest(
            req) && req.content@ == content@),
        is_joined_by(old(manager)@, final(manager)@, rx_id@),
{
    let payload = choose|payload: InternalEventPayload|
        is_import_request(payload, content@) && res.0@ == #[trigger] exchange_with(
            payload,
            old(manager)@.plugins,
            rx_id@,
            event_ids@,
        );
    lemma_asks_each(res.0, res.1, payload, old(manager)@.plugins, rx_id@, event_ids@);
}

/// The four letters stand in the type one after the other, in lower case.
pub open spec fn has_json(lowered: Seq<char>) -> bool {
    exists|k: int|
        #![trigger lowered[k]]
        0 <= k && k + 3 < lowered.len() && lowered[k] == 'j' && lowered[k + 1] == 's' && lowered[k
            + 2] == 'o' && lowered[k + 3] == 'n'
}

/// One plugin is asked to filter the content with the filter, and somebody waits for
/// the reply.
pub open spec fn asks_to_filter(
    ask: (Exchange, ReplyCollector),
    asked: PluginHandle,
    filter: Seq<char>,
    content: Seq<char>,
    rx_id: Seq<char>,
    event_id: String,
) -> bool {
    &&& ask.0@.rx_id == rx_id
    &&& ask.0@.sent == 0
    &&& ask.0@.outbound.len() == 1
    &&& ask.0@.outbound[0].plugin == asked
    &&& ask.0@.outbound[0].event.id == event_id
    &&& ask.0@.outbound[0].event.plugin_ref_id == asked.ref_id
    &&& ask.0@.outbound[0].event.reply_id is None
    &&& ask.0@.outbound[0].event.payload matches InternalEventPayload::FilterRequest(req)
    &&& req.filter@ == filter
    &&& req.content@ == content
    &&& ask.1@.expected == seq![event_id@]
    &&& ask.1@.found.len() == 0
}

/// The directory of the plugin for this type of content.
pub open spec fn filter_dir(json: bool) -> Seq<char> {
    if json {
        "filter-jsonpath"@
    } else {
        "filter-xpath"@
    }
}

/// Content is filtered by the first plugin from the directory `filter-jsonpath` where
/// `json` stands anywhere in the lowered type, and by the one from `filter-xpath`
/// otherwise. It gets filter and content as they are. Without that plugin, its directory
/// is the error, and nobody subscribes.
pub proof fn law_filter_data_of_type(
    manager: &mut PluginManager,
    filter: &str,
    content: &str,
    lowered_type: &str,
    rx_id: String,
    event_id: String,
    res: Result<(Exchange, ReplyCollector), Error>,
    i: int,
)
    requires
        call_ensures(
            PluginManager::filter_data_of_type,
            (manager, filter, content, lowered_type, rx_id, event_id),
            res,
        ),
    ensures
        ({
            let dir = filter_dir(has_json(lowered_type@));
            let plugins = old(manager)@.plugins;
            &&& is_first_from(plugins, i, dir) ==> res is Ok && asks_to_filter(
                res->Ok_0,
                plugins[i],
                filter@,
                content@,
                rx_id@,
                event_id,
            ) && is_joined_by(old(manager)@, final(manager)@, rx_id@)
            &&& (forall|j: int| 0 <= j < plugins.len() ==> (#[trigger] plugins[j]).dir@ != dir)
                ==> (res matches Err(Error::PluginNotFoundErr(text)) && text@ == dir) && final(
                manager)@ == old(manager)@
        }),
        final(manager)@.plugins == old(manager)@.plugins,
        final(manager)@.boots == old(manager)@.boots,
{
    law_filter_plugin_goes_by_the_letters(lowered_type@);
    let dir = filter_dir(has_json(lowered_type@));
    lemma_first_from(&*old(manager), dir);
    if let Ok(ask) = res {
        law_one_plugin_is_asked(
            ask.0@,
            ask.1@,
            old(manager)@.by_dir(dir)->0,
            |p: InternalEventPayload| is_filter_request(p, filter@, content@),
            rx_id@,
            event_id,
        );
    }
}

/// Content of a type is filtered as content of the type in lower case is; for a type of
/// ASCII characters, that is where `json` stands in it with letters of either case.
pub proof fn law_filter_data(
    manager: &mut PluginManager,
    filter: &str,
    content: &str,
    content_type: &str,
    rx_id: String,
    event_id: String,
    lowered_type: String,
    res: Result<(Exchange, ReplyCollector), Error>,
    i: int,
)
    requires
        call_ensures(str::to_lowercase, (content_type,), lowered_type),
        call_ensures(
            PluginManager::filter_data,
            (manager, filter, content, content_type, rx_id, event_id),
            res,
        ),
    ensures
        ({
            let dir = filter_dir(has_json(lowered_type@));
            let plugins = old(manager)@.plugins;
            &&& is_first_from(plugins, i, dir) ==> res is Ok && asks_to_filter(
                res->Ok_0,
                plugins[i],
                filter@,
                content@,
                rx_id@,
                event_id,
            ) && is_joined_by(old(manager)@, final(manager)@, rx_id@)
            &&& (forall|j: int| 0 <= j < plugins.len() ==> (#[trigger] plugins[j]).dir@ != dir)
                ==> (res matches Err(Error::PluginNotFoundErr(text)) && text@ == dir) && final(
                manager)@ == old(manager)@
        }),
        final(manager)@.plugins == old(manager)@.plugins,
        final(manager)@.boots == old(manager)@.boots,
        is_ascii_chars(content_type@) ==> lowered_type@.len() == content_type@.len() && forall|
            k: int,
        |
            0 <= k < content_type@.len() ==> {
                let c = content_type@[k];
                if 'A' <= c && c <= 'Z' {
                    #[trigger] lowered_type@[k] as int - 'a' as int == c as int - 'A' as int
                } else {
                    lowered_type@[k] == c
                }
            },
{
    assert(lowered_type@ == lowercase(content_type@));
    law_filter_plugin_goes_by_the_letters(lowered_type@);
    let dir = filter_dir(has_json(lowered_type@));
    lemma_first_from(&*old(manager), dir);
    if let Ok(ask) = res {
        law_one_plugin_is_asked(
            ask.0@,
            ask.1@,
            old(manager)@.by_dir(dir)->0,
            |p: InternalEventPayload| is_filter_request(p, filter@, content@),
            rx_id@,
            event_id,
        );
    }
    if is_ascii_chars(content_type@) {
        assert forall|k: int| 0 <= k < content_type@.len() implies {
            let c = content_type@[k];
            if 'A' <= c && c <= 'Z' {
                #[trigger] lowered_type@[k] as int - 'a' as int == c as int - 'A' as int
            } else {
                lowered_type@[k] == c
            }
        } by {
            assert(lowered_type@[k] == ascii_lowercase(content_type@[k]));
            law_capital_letters_are_lowered(content_type@[k]);
        }
    }
}

// What is read

/// A failed request stays a failure, and of replies the HTTP request actions are read in
/// their order: no replies give none, and one reply more adds what it carries.
pub proof fn law_http_request_actions(
    replies: Vec<InternalEvent>,
    longer: Vec<InternalEvent>,
    event: InternalEvent,
    error: Error,
    failed: Result<Vec<GetHttpRequestActionsResponse>, Error>,
    res: Result<Vec<GetHttpRequestActionsResponse>, Error>,
    longer_res: Result<Vec<GetHttpRequestActionsResponse>, Error>,
)
    requires
        longer@ == replies@.push(event),
        call_ensures(PluginManager::http_request_actions, (Err(error),), failed),
        call_ensures(PluginManager::http_request_actions, (Ok(replies),), res),
        call_ensures(PluginManager::http_request_actions, (Ok(longer),), longer_res),
    ensures
        failed == Err::<Vec<GetHttpRequestActionsResponse>, Error>(error),
        res is Ok,
        longer_res is Ok,
        replies@.len() == 0 ==> res->Ok_0@.len() == 0,
        longer_res->Ok_0@ == (match event.payload {
            InternalEventPayload::GetHttpRequestActionsResponse(resp) => res->Ok_0@.push(resp),
            _ => res->Ok_0@,
        }),
{
    law_one_reply_more_adds_its_actions(replies@, event);
    if replies@.len() == 0 {
        assert(replies@ =~= Seq::empty());
    }
}

/// The same for the template functions.
pub proof fn law_template_functions(
    replies: Vec<InternalEvent>,
    longer: Vec<InternalEvent>,
    event: InternalEvent,
    error: Error,
    failed: Result<Vec<GetTemplateFunctionsResponse>, Error>,
    res: Result<Vec<GetTemplateFunctionsResponse>, Error>,
    longer_res: Result<Vec<GetTemplateFunctionsResponse>, Error>,
)
    requires
        longer@ == replies@.push(event),
        call_ensures(PluginManager::template_functions, (Err(error),), failed),
        call_ensures(PluginManager::template_functions, (Ok(replies),), res),
        call_ensures(PluginManager::template_functions, (Ok(longer),), longer_res),
    ensures
        failed == Err::<Vec<GetTemplateFunctionsResponse>, Error>(error),
        res is Ok,
        longer_res is Ok,
        replies@.len() == 0 ==> res->Ok_0@.len() == 0,
        longer_res->Ok_0@ == (match event.payload {
            InternalEventPayload::GetTemplateFunctionsResponse(resp) => res->Ok_0@.push(resp),
            _ => res->Ok_0@,
        }),
{
    law_one_reply_more_adds_its_functions(replies@, event);
    if replies@.len() == 0 {
        assert(replies@ =~= Seq::empty());
    }
}

/// The value is that of the first reply that gives one, and none where no reply does.
pub proof fn law_template_value(
    replies: Vec<InternalEvent>,
    error: Error,
    failed: Result<Option<String>, Error>,
    res: Result<Option<String>, Error>,
    i: int,
    value: String,
)
    requires
        call_ensures(PluginManager::template_value, (Err(error),), failed),
        call_ensures(PluginManager::template_value, (Ok(replies),), res),
    ensures
        failed == Err::<Option<String>, Error>(error),
        (0 <= i < replies@.len() && gives_value(replies@[i], value) && forall|j: int, v: String|
            0 <= j < i ==> !#[trigger] gives_value(replies@[j], v)) ==> res == Ok::<
            Option<String>,
            Error,
        >(Some(value)),
        (forall|j: int, v: String|
            0 <= j < replies@.len() ==> !#[trigger] gives_value(replies@[j], v)) ==> res == Ok::<
            Option<String>,
            Error,
        >(None),
{
    law_template_value_is_the_first(replies@);
    if let Some(found) = find_map(replies@, template_value_in()) {
        let k = choose|k: int|
            #![trigger replies@[k]]
            0 <= k < replies@.len() && gives_value(replies@[k], found) && forall|
                j: int,
                v: String,
            |
                0 <= j < k ==> !#[trigger] gives_value(replies@[j], v);
        assert(gives_value(replies@[k], found));
        if 0 <= i < replies@.len() && gives_value(replies@[i], value) {
            if k < i {
                assert(gives_value(replies@[k], found));
            }
            if i < k {
                assert(!gives_value(replies@[i], value));
            }
        }
    }
}

/// The import is that of the first reply that is one, as it is, and its importer goes by
/// the name that the plugin said when it started.
pub proof fn law_imported_data(
    manager: &PluginManager,
    replies: Vec<InternalEvent>,
    res: Result<(ImportResponse, String), Error>,
    i: int,
    resp: ImportResponse,
    k: int,
)
    requires
        call_ensures(PluginManager::imported_data, (manager, Ok(replies)), res),
        0 <= i < replies@.len(),
        replies@[i].payload == InternalEventPayload::ImportResponse(resp),
        forall|j: int| 0 <= j < i ==> !((#[trigger] replies@[j]).payload is ImportResponse),
    ensures
        is_first_with(manager@.plugins, k, replies@[i].plugin_ref_id@) ==> (said_by(
            manager@.boots,
            manager@.plugins[k],
        ) matches Some(info) ==> res == Ok::<(ImportResponse, String), Error>((resp, info.name))),
        (forall|j: int|
            0 <= j < manager@.plugins.len() ==> (#[trigger] manager@.plugins[j]).ref_id@
                != replies@[i].plugin_ref_id@) ==> (res matches Err(Error::PluginNotFoundErr(text))
            && text@ == replies@[i].plugin_ref_id@),
{
    law_importer_is_known_once_started(manager@, replies@, i, resp);
    lemma_first_with(manager, replies@[i].plugin_ref_id@);
}

/// Without an import among the replies, and where the request failed, that is the error.
pub proof fn law_nothing_imported(
    manager: &PluginManager,
    replies: Vec<InternalEvent>,
    error: Error,
    failed: Result<(ImportResponse, String), Error>,
    res: Result<(ImportResponse, String), Error>,
)
    requires
        call_ensures(PluginManager::imported_data, (manager, Err(error)), failed),
        call_ensures(PluginManager::imported_data, (manager, Ok(replies)), res),
        forall|j: int|
            0 <= j < replies@.len() ==> !((#[trigger] replies@[j]).payload is ImportResponse),
    ensures
        failed == Err::<(ImportResponse, String), Error>(error),
        res matches Err(Error::PluginErr(text)) && text@
            == "No importers found for file contents"@,
{
    law_import_is_the_first(replies@);
    assert(find_map(replies@, import_in()) is None);
}

/// The importer can be named unless it is listed and has not started.
pub proof fn law_knows_importer(
    manager: &PluginManager,
    replies: Vec<InternalEvent>,
    reply: &Result<Vec<InternalEvent>, Error>,
    res: bool,
    i: int,
    resp: ImportResponse,
    k: int,
)
    requires
        *reply == Ok::<Vec<InternalEvent>, Error>(replies),
        call_ensures(PluginManager::knows_importer, (manager, reply), res),
        0 <= i < replies@.len(),
        replies@[i].payload == InternalEventPayload::ImportResponse(resp),
        forall|j: int| 0 <= j < i ==> !((#[trigger] replies@[j]).payload is ImportResponse),
    ensures
        is_first_with(manager@.plugins, k, replies@[i].plugin_ref_id@) ==> res == (said_by(
            manager@.boots,
            manager@.plugins[k],
        ) is Some),
        (forall|j: int|
            0 <= j < manager@.plugins.len() ==> (#[trigger] manager@.plugins[j]).ref_id@
                != replies@[i].plugin_ref_id@) ==> res,
{
    law_importer_is_known_once_started(manager@, replies@, i, resp);
    lemma_first_with(manager, replies@[i].plugin_ref_id@);
}

/// Filtered content is handed on as it is. An empty reply, any other reply and a failure
/// are errors that say so.
pub proof fn law_filtered_data(
    reply: Result<InternalEvent, Error>,
    rendered: &str,
    res: Result<FilterResponse, Error>,
)
    requires
        call_ensures(PluginManager::filtered_data, (reply, rendered), res),
    ensures
        match reply {
            Err(error) => res == Err::<FilterResponse, Error>(error),
            Ok(event) => match event.payload {
                InternalEventPayload::FilterResponse(resp) => res == Ok::<FilterResponse, Error>(
                    resp,
                ),
                InternalEventPayload::EmptyResponse => res matches Err(Error::PluginErr(text))
                    && text@ == "Filter returned empty"@,
                _ => res matches Err(Error::PluginErr(text)) && text@
                    == "Export returned invalid event "@ + rendered@,
            },
        },
{
}

/// Of several replies the first one counts, and a failure stays one.
pub proof fn law_first_reply(
    replies: Result<Vec<InternalEvent>, Error>,
    res: Result<InternalEvent, Error>,
)
    requires
        call_ensures(PluginManager::first_reply, (replies,), res),
        replies matches Ok(events) ==> events@.len() > 0,
    ensures
        match replies {
            Err(error) => res == Err::<InternalEvent, Error>(error),
            Ok(events) => res == Ok::<InternalEvent, Error>(events@[0]),
        },
{
}

// Text and paths

/// A text is found in another exactly where that is the text with something before and
/// after it.
pub proof fn law_contains(text: &str, needle: &str, res: bool)
    requires
        call_ensures(contains, (text, needle), res),
    ensures
        res <==> exists|before: Seq<char>, after: Seq<char>|
            text@ == #[trigger] (before + needle@ + after),
{
    law_text_is_found_where_it_stands(text@, needle@);
}

/// A letter and a colon at the start are taken off, and nothing else is.
pub proof fn law_strip_drive(text: &str, res: String)
    requires
        call_ensures(strip_drive, (text,), res),
    ensures
        ({
            let t = text@;
            if t.len() >= 2 && t[1] == ':' && (('a' <= t[0] && t[0] <= 'z') || ('A' <= t[0] && t[0]
                <= 'Z')) {
                res@ == t.skip(2)
            } else {
                res@ == t
            }
        }),
{
    let t = text@;
    if t.len() >= 2 && t[1] == ':' && (('a' <= t[0] && t[0] <= 'z') || ('A' <= t[0] && t[0]
        <= 'Z')) {
        law_drive_is_taken_off(t[0], t.skip(2));
        assert(seq![t[0], ':'] + t.skip(2) =~= t);
    } else {
        law_text_without_drive_is_kept(t);
    }
}

/// A usual path comes out without its drive, if it has one, and is otherwise the same
/// path.
pub proof fn law_fix_windows_paths(p: &str, letter: char, rest: Seq<char>, res: String)
    requires
        call_ensures(fix_windows_paths, (p,), res),
        is_usual(rest),
    ensures
        p@ == rest ==> is_same_path(rest, res@),
        p@ == seq![letter, ':'] + rest && (('a' <= letter && letter <= 'z') || ('A' <= letter
            && letter <= 'Z')) ==> is_same_path(rest, res@),
{
    if p@ == rest {
        law_path_without_drive_stays(rest, res@);
    }
    if p@ == seq![letter, ':'] + rest && (('a' <= letter && letter <= 'z') || ('A' <= letter
        && letter <= 'Z')) {
        law_fixed_path_has_lost_its_drive(letter, rest, res@);
    }
}

/// A verbatim path comes out without its prefix and its drive, or with both as they are;
/// what follows is the same path.
pub proof fn law_fix_verbatim_paths(p: &str, letter: char, rest: Seq<char>, res: String)
    requires
        call_ensures(fix_windows_paths, (p,), res),
        ('a' <= letter && letter <= 'z') || ('A' <= letter && letter <= 'Z'),
        rest.len() > 0 && rest[0] == '\\',
        is_usual(rest),
        p@ == seq!['\\', '\\', '?', '\\', letter, ':'] + rest,
    ensures
        is_same_path(rest, res@) || {
            &&& res@.len() == rest.len() + 6
            &&& res@.take(6) == seq!['\\', '\\', '?', '\\', letter, ':']
            &&& is_same_path(rest, res@.skip(6))
        },
{
    law_verbatim_path_keeps_its_rest(letter, rest, res@);
}

/// A usual path that is not to be simplified loses its drive, if it has one, and is
/// otherwise the same path.
pub proof fn law_fix_simplified_path(p: &str, letter: char, rest: Seq<char>, res: String)
    requires
        call_ensures(fix_simplified_path, (p,), res),
        is_usual(rest),
    ensures
        p@ == rest ==> is_same_path(rest, res@),
        p@ == seq![letter, ':'] + rest && (('a' <= letter && letter <= 'z') || ('A' <= letter
            && letter <= 'Z')) ==> is_same_path(rest, res@),
{
    if p@ == rest {
        law_text_without_drive_is_kept(rest);
        law_only_slashes_are_turned(rest, res@);
    }
    if p@ == seq![letter, ':'] + rest && (('a' <= letter && letter <= 'z') || ('A' <= letter
        && letter <= 'Z')) {
        law_drive_is_taken_off(letter, rest);
        law_only_slashes_are_turned(rest, res@);
    }
}

/// A listing starts empty, takes the path of each directory, in their order, until a
/// read ends it, and hands out what it has.
pub proof fn law_dir_listing(
    start: DirListing,
    listing: &mut DirListing,
    read: EntryRead,
    goes_on: bool,
    finished: DirListing,
    dirs: Vec<String>,
)
    requires
        call_ensures(DirListing::new, (), start),
        call_ensures(DirListing::accept, (listing, read), goes_on),
        call_ensures(DirListing::into_dirs, (finished,), dirs),
    ensures
        start@.len() == 0,
        match read {
            EntryRead::Entry { path, is_dir } => goes_on && final(listing)@ == (if is_dir {
                old(listing)@.push(path)
            } else {
                old(listing)@
            }),
            _ => !goes_on && final(listing)@ == old(listing)@,
        },
        dirs@ == finished@,
{
    law_read_adds_a_directory(old(listing)@, read);
}

} // verus!
