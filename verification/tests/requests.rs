use std::collections::HashMap;
use yaak_plugin_runtime::error::Error;
use yaak_plugin_runtime::events::{
    BootResponse, CallHttpRequestActionRequest, CallTemplateFunctionResponse, FilterRequest,
    FilterResponse, GetHttpRequestActionsRequest, GetHttpRequestActionsResponse,
    GetTemplateFunctionsResponse, ImportRequest, ImportResponse, InternalEvent,
    InternalEventPayload, RenderPurpose,
};
use yaak_plugin_runtime::manager::PluginManager;

fn text(s: &str) -> String {
    s.to_string()
}

fn reply(plugin: &str, payload: InternalEventPayload) -> InternalEvent {
    InternalEvent {
        id: text("reply"),
        plugin_ref_id: text(plugin),
        reply_id: Some(text("question")),
        payload,
    }
}

fn manager_with(dirs: &[(&str, &str)]) -> PluginManager {
    let mut manager = PluginManager::new();
    for (dir, ref_id) in dirs {
        manager.add_plugin_by_dir(dir, true, text(ref_id), text("boot"), text("ev")).unwrap();
        manager.unsubscribe("boot");
    }
    manager
}

fn transport() -> Error {
    Error::TransportErr(text("lost"))
}

#[test]
fn asks_all_plugins_for_http_request_actions() {
    let mut manager = manager_with(&[("d1", "r1"), ("d2", "r2")]);
    let (mut exchange, _) =
        manager.get_http_request_actions(text("rx"), vec![text("e1"), text("e2")]);
    let first = exchange.next_send().unwrap();
    assert_eq!(first.plugin.ref_id, "r1");
    assert_eq!(first.event.id, "e1");
    assert_eq!(first.event.reply_id, None);
    assert_eq!(
        first.event.payload,
        InternalEventPayload::GetHttpRequestActionsRequest(GetHttpRequestActionsRequest {})
    );
    exchange.sent(Ok(())).unwrap();
    let second = exchange.next_send().unwrap();
    assert_eq!(second.plugin.ref_id, "r2");
    assert_eq!(second.event.plugin_ref_id, "r2");
    exchange.sent(Ok(())).unwrap();
    assert!(exchange.next_send().is_none());
}

#[test]
fn reads_http_request_actions() {
    let a = GetHttpRequestActionsResponse { body: text("[1]") };
    let b = GetHttpRequestActionsResponse { body: text("[2]") };
    let replies = vec![
        reply("r1", InternalEventPayload::GetHttpRequestActionsResponse(a.clone())),
        reply("r2", InternalEventPayload::EmptyResponse),
        reply("r3", InternalEventPayload::GetHttpRequestActionsResponse(b.clone())),
    ];
    assert_eq!(PluginManager::http_request_actions(Ok(replies)), Ok(vec![a, b]));
    assert_eq!(PluginManager::http_request_actions(Err(transport())), Err(transport()));
}

#[test]
fn asks_and_reads_template_functions() {
    let mut manager = manager_with(&[("d1", "r1")]);
    let (exchange, _) = manager.get_template_functions(text("rx"), vec![text("e1")]);
    assert_eq!(
        exchange.next_send().unwrap().event.payload,
        InternalEventPayload::GetTemplateFunctionsRequest
    );
    let f = GetTemplateFunctionsResponse { body: text("[]") };
    let replies = vec![
        reply("r2", InternalEventPayload::EmptyResponse),
        reply("r1", InternalEventPayload::GetTemplateFunctionsResponse(f.clone())),
    ];
    assert_eq!(PluginManager::template_functions(Ok(replies)), Ok(vec![f]));
    assert_eq!(PluginManager::template_functions(Err(transport())), Err(transport()));
}

#[test]
fn calls_an_action_of_its_plugin() {
    let manager = manager_with(&[("d1", "r1"), ("d2", "r2")]);
    let req = CallHttpRequestActionRequest { plugin_ref_id: text("r2"), body: text("{}") };
    let out = manager.call_http_request_action(req.clone(), text("e")).unwrap();
    assert_eq!(out.plugin.ref_id, "r2");
    assert_eq!(out.event.id, "e");
    assert_eq!(out.event.reply_id, None);
    assert_eq!(out.event.payload, InternalEventPayload::CallHttpRequestActionRequest(req));
    let stray = CallHttpRequestActionRequest { plugin_ref_id: text("r9"), body: text("{}") };
    assert_eq!(
        manager.call_http_request_action(stray, text("e")),
        Err(Error::PluginNotFoundErr(text("r9")))
    );
}

#[test]
fn calls_a_template_function() {
    let mut manager = manager_with(&[("d1", "r1")]);
    let mut args: HashMap<String, String> = HashMap::new();
    args.insert(text("k"), text("v"));
    let (exchange, _) = manager.call_template_function(
        "fn",
        args.clone(),
        RenderPurpose::Preview,
        text("rx"),
        vec![text("e1")],
    );
    match &exchange.next_send().unwrap().event.payload {
        InternalEventPayload::CallTemplateFunctionRequest(req) => {
            assert_eq!(req.name, "fn");
            assert_eq!(*req.args.values, args);
            assert_eq!(req.args.purpose, RenderPurpose::Preview);
        }
        other => panic!("{other:?}"),
    }
}

#[test]
fn takes_the_first_template_value() {
    let value = |v: Option<&str>| {
        InternalEventPayload::CallTemplateFunctionResponse(CallTemplateFunctionResponse {
            value: v.map(text),
        })
    };
    let replies = vec![
        reply("r1", InternalEventPayload::EmptyResponse),
        reply("r2", value(None)),
        reply("r3", value(Some("a"))),
        reply("r4", value(Some("b"))),
    ];
    assert_eq!(PluginManager::template_value(Ok(replies)), Ok(Some(text("a"))));
    assert_eq!(PluginManager::template_value(Ok(vec![reply("r", value(None))])), Ok(None));
    assert_eq!(PluginManager::template_value(Ok(vec![])), Ok(None));
    assert_eq!(PluginManager::template_value(Err(transport())), Err(transport()));
}

#[test]
fn imports_with_the_first_importer() {
    let mut manager = manager_with(&[("d1", "r1"), ("d2", "r2")]);
    let (exchange, _) = manager.import_data("data", text("rx"), vec![text("e1"), text("e2")]);
    assert_eq!(
        exchange.next_send().unwrap().event.payload,
        InternalEventPayload::ImportRequest(ImportRequest { content: text("data") })
    );
    let import = |b: &str| InternalEventPayload::ImportResponse(ImportResponse { body: text(b) });
    let replies = || {
        Ok(vec![
            reply("r1", InternalEventPayload::EmptyResponse),
            reply("r2", import("two")),
            reply("r1", import("one")),
        ])
    };
    assert!(!manager.knows_importer(&replies()));
    let plugin = manager.get_plugin_by_ref_id("r2").unwrap();
    let started = InternalEventPayload::BootResponse(BootResponse {
        name: text("importer"),
        body: text("{}"),
    });
    manager.finish_boot(&plugin, Ok(reply("r2", started))).unwrap();
    assert!(manager.knows_importer(&replies()));
    assert_eq!(
        manager.imported_data(replies()),
        Ok((ImportResponse { body: text("two") }, text("importer")))
    );
}

#[test]
fn fails_to_import() {
    let manager = manager_with(&[("d1", "r1")]);
    let nothing = || Ok(vec![reply("r1", InternalEventPayload::EmptyResponse)]);
    assert!(manager.knows_importer(&nothing()));
    assert_eq!(
        manager.imported_data(nothing()),
        Err(Error::PluginErr(text("No importers found for file contents")))
    );
    let stray = || {
        Ok(vec![reply(
            "r9",
            InternalEventPayload::ImportResponse(ImportResponse { body: text("{}") }),
        )])
    };
    assert!(manager.knows_importer(&stray()));
    assert_eq!(manager.imported_data(stray()), Err(Error::PluginNotFoundErr(text("r9"))));
    assert!(manager.knows_importer(&Err(transport())));
    assert_eq!(manager.imported_data(Err(transport())), Err(transport()));
}

#[test]
fn filters_json_with_jsonpath_in_any_case() {
    for content_type in ["application/json", "application/JSON; charset=utf-8", "Text/X-Json"] {
        let mut manager = manager_with(&[("filter-xpath", "rx"), ("filter-jsonpath", "rj")]);
        let (exchange, _) =
            manager.filter_data("$.a", "{}", content_type, text("s"), text("e")).unwrap();
        let out = exchange.next_send().unwrap();
        assert_eq!(out.plugin.ref_id, "rj");
        assert_eq!(
            out.event.payload,
            InternalEventPayload::FilterRequest(FilterRequest {
                filter: text("$.a"),
                content: text("{}"),
            })
        );
    }
}

#[test]
fn filters_anything_else_with_xpath() {
    for content_type in ["text/xml", "", "application/jsn"] {
        let mut manager = manager_with(&[("filter-xpath", "rx"), ("filter-jsonpath", "rj")]);
        let (exchange, _) =
            manager.filter_data("//a", "<a/>", content_type, text("s"), text("e")).unwrap();
        assert_eq!(exchange.next_send().unwrap().plugin.ref_id, "rx");
    }
}

#[test]
fn takes_a_lowered_type_as_it_is() {
    let mut manager = manager_with(&[("filter-xpath", "rx"), ("filter-jsonpath", "rj")]);
    let (exchange, _) =
        manager.filter_data_of_type("a", "b", "JSON", text("s"), text("e")).unwrap();
    assert_eq!(exchange.next_send().unwrap().plugin.ref_id, "rx");
}

#[test]
fn fails_without_a_filter_plugin() {
    let mut manager = manager_with(&[("/plugins/filter-jsonpath", "r")]);
    assert_eq!(
        manager.filter_data("a", "b", "application/json", text("s"), text("e")).err(),
        Some(Error::PluginNotFoundErr(text("filter-jsonpath")))
    );
    assert_eq!(
        manager.filter_data("a", "b", "text/xml", text("s"), text("e")).err(),
        Some(Error::PluginNotFoundErr(text("filter-xpath")))
    );
}

#[test]
fn reads_filtered_content() {
    let resp = FilterResponse { content: text("1") };
    let good = reply("r", InternalEventPayload::FilterResponse(resp.clone()));
    assert_eq!(PluginManager::filtered_data(Ok(good), "?"), Ok(resp));
    let empty = reply("r", InternalEventPayload::EmptyResponse);
    assert_eq!(
        PluginManager::filtered_data(Ok(empty), "?"),
        Err(Error::PluginErr(text("Filter returned empty")))
    );
    let wrong = reply("r", InternalEventPayload::GetTemplateFunctionsRequest);
    assert_eq!(
        PluginManager::filtered_data(Ok(wrong), "GetTemplateFunctionsRequest"),
        Err(Error::PluginErr(text(
            "Export returned invalid event GetTemplateFunctionsRequest"
        )))
    );
    assert_eq!(PluginManager::filtered_data(Err(transport()), "?"), Err(transport()));
}

#[test]
fn takes_the_first_reply_of_one_plugin() {
    let a = reply("a", InternalEventPayload::EmptyResponse);
    let b = reply("b", InternalEventPayload::EmptyResponse);
    assert_eq!(PluginManager::first_reply(Ok(vec![a.clone(), b])), Ok(a));
    assert_eq!(PluginManager::first_reply(Err(transport())), Err(transport()));
}
