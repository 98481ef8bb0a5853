use yaak_plugin_runtime::error::Error;
use yaak_plugin_runtime::events::{InternalEvent, InternalEventPayload};
use yaak_plugin_runtime::exchange::{open_exchange, ReplyCollector};
use yaak_plugin_runtime::manager::PluginManager;
use yaak_plugin_runtime::plugin_handle::PluginHandle;

fn text(s: &str) -> String {
    s.to_string()
}

fn plugin(ref_id: &str, dir: &str) -> PluginHandle {
    PluginHandle { ref_id: text(ref_id), dir: text(dir), slot: 0 }
}

fn answer(id: &str, to: Option<&str>) -> InternalEvent {
    InternalEvent {
        id: text(id),
        plugin_ref_id: text("p"),
        reply_id: to.map(text),
        payload: InternalEventPayload::EmptyResponse,
    }
}

fn collector(ids: &[&str]) -> ReplyCollector {
    let plugins: Vec<PluginHandle> = ids.iter().map(|id| plugin(id, id)).collect();
    let ids = ids.iter().map(|id| text(id)).collect();
    open_exchange(&InternalEventPayload::EmptyResponse, &plugins, text("rx"), ids).1
}

fn ids(collector: ReplyCollector) -> Vec<String> {
    collector.into_events().into_iter().map(|e| e.id).collect()
}

#[test]
fn collects_until_there_are_as_many_replies_as_events() {
    let mut c = collector(&["e1", "e2"]);
    assert!(!c.offer(answer("a", None)));
    assert!(!c.offer(answer("b", Some("e2"))));
    assert!(!c.offer(answer("c", Some("other"))));
    assert!(c.offer(answer("d", Some("e1"))));
    assert_eq!(ids(c), vec!["b", "d"]);
}

#[test]
fn counts_every_reply_to_the_same_event() {
    let mut c = collector(&["e1", "e2"]);
    assert!(!c.offer(answer("a", Some("e1"))));
    assert!(c.offer(answer("b", Some("e1"))));
    assert_eq!(ids(c), vec!["a", "b"]);
}

#[test]
fn waits_for_any_event_where_nobody_was_asked() {
    let mut c = collector(&[]);
    assert!(c.offer(answer("a", Some("e1"))));
    assert!(ids(c).is_empty());
}

#[test]
fn takes_the_first_answer_to_a_single_event() {
    let mut c = collector(&["e1"]);
    assert!(!c.offer(answer("a", Some("e2"))));
    assert!(c.offer(answer("b", Some("e1"))));
    assert_eq!(ids(c), vec!["b"]);
}

#[test]
fn hands_each_event_to_its_plugin() {
    let plugins = vec![plugin("r1", "d1"), plugin("r2", "d2")];
    let (mut exchange, _) = open_exchange(
        &InternalEventPayload::EmptyResponse,
        &plugins,
        text("rx"),
        vec![text("e1"), text("e2")],
    );
    for (i, p) in plugins.iter().enumerate() {
        let out = exchange.next_send().unwrap();
        assert_eq!(out.plugin, *p);
        assert_eq!(out.event.plugin_ref_id, p.ref_id);
        assert_eq!(out.event.id, format!("e{}", i + 1));
        assert_eq!(exchange.sent(Ok(())), Ok(()));
    }
    assert!(exchange.next_send().is_none());
}

#[test]
fn hands_events_for_a_shared_id_to_the_first_plugin_that_has_it() {
    let plugins = vec![plugin("r", "d1"), plugin("r", "d2")];
    let (mut exchange, _) = open_exchange(
        &InternalEventPayload::EmptyResponse,
        &plugins,
        text("rx"),
        vec![text("e1"), text("e2")],
    );
    exchange.sent(Ok(())).unwrap();
    assert_eq!(exchange.next_send().unwrap().plugin.dir, "d1");
}

#[test]
fn ends_with_the_first_send_that_fails() {
    let mut manager = PluginManager::new();
    let (mut exchange, _) = manager.send_to_plugin_and_wait(
        &plugin("r", "d"),
        &InternalEventPayload::EmptyResponse,
        text("rx"),
        text("e"),
    );
    let res = exchange.sent(Err(Error::TransportErr(text("full"))));
    assert_eq!(res, Err(Error::TransportErr(text("full"))));
    assert_eq!(exchange.next_send().unwrap().event.id, "e");
    assert_eq!(manager.forward(&answer("a", None)).len(), 1);
}

#[test]
fn closing_ends_the_subscription() {
    let mut manager = PluginManager::new();
    let (mut exchange, mut collector) = manager.send_to_plugin_and_wait(
        &plugin("r", "d"),
        &InternalEventPayload::EmptyResponse,
        text("rx"),
        text("e"),
    );
    exchange.sent(Ok(())).unwrap();
    let deliveries = manager.forward(&answer("a", Some("e")));
    assert_eq!(deliveries.len(), 1);
    assert_eq!(deliveries[0].rx_id, "rx");
    for delivery in deliveries {
        assert!(collector.offer(delivery.event));
    }
    let replies = manager.close_exchange(exchange, collector);
    assert_eq!(replies, vec![answer("a", Some("e"))]);
    assert!(manager.forward(&answer("b", None)).is_empty());
}

#[test]
fn asks_every_listed_plugin() {
    let mut manager = PluginManager::new();
    for (dir, ref_id) in [("d1", "r1"), ("d2", "r2")] {
        manager.add_plugin_by_dir(dir, true, text(ref_id), text("b"), text("x")).unwrap();
    }
    let (mut exchange, _) = manager.send_and_wait(
        &InternalEventPayload::EmptyResponse,
        text("rx"),
        vec![text("e1"), text("e2")],
    );
    let mut asked: Vec<String> = Vec::new();
    while let Some(out) = exchange.next_send() {
        asked.push(out.plugin.ref_id.clone());
        exchange.sent(Ok(())).unwrap();
    }
    assert_eq!(asked, vec!["r1", "r2"]);
}
