use yaak_plugin_runtime::error::Error;
use yaak_plugin_runtime::events::{
    BootRequest, BootResponse, InternalEvent, InternalEventPayload, OtherPayload,
};
use yaak_plugin_runtime::manager::{listen_addr, InstalledPlugin, PluginManager};
use yaak_plugin_runtime::plugin_handle::PluginHandle;

fn text(s: &str) -> String {
    s.to_string()
}

fn event(id: &str, plugin: &str, reply_id: Option<&str>, payload: InternalEventPayload) -> InternalEvent {
    InternalEvent {
        id: text(id),
        plugin_ref_id: text(plugin),
        reply_id: reply_id.map(text),
        payload,
    }
}

fn toast() -> InternalEventPayload {
    InternalEventPayload::Other(OtherPayload { kind: text("toast"), body: text("{}") })
}

fn boot_response(name: &str) -> InternalEventPayload {
    InternalEventPayload::BootResponse(BootResponse { name: text(name), body: text("{}") })
}

fn add(manager: &mut PluginManager, dir: &str, ref_id: &str) {
    let rx_id = format!("rx-{ref_id}");
    let boot = manager
        .add_plugin_by_dir(dir, true, text(ref_id), rx_id.clone(), format!("ev-{ref_id}"))
        .unwrap();
    assert_eq!(boot.exchange.rx_id(), rx_id);
    manager.unsubscribe(&rx_id);
}

fn start(manager: &mut PluginManager, ref_id: &str, name: &str) {
    let plugin = manager.get_plugin_by_ref_id(ref_id).unwrap();
    let reply = event("r", ref_id, Some("b"), boot_response(name));
    assert_eq!(manager.finish_boot(&plugin, Ok(reply)), Ok(()));
}

fn receivers(manager: &PluginManager, event: &InternalEvent) -> Vec<String> {
    let mut ids: Vec<String> = manager.forward(event).into_iter().map(|d| d.rx_id).collect();
    ids.sort();
    ids
}

#[test]
fn listens_on_the_given_port() {
    assert_eq!(listen_addr(Some("8080")), "localhost:8080");
    assert_eq!(listen_addr(None), "localhost:0");
}

#[test]
fn starts_empty() {
    let manager = PluginManager::new();
    assert_eq!(manager.plugin_count(), 0);
    assert!(!manager.is_killed());
    assert!(manager.forward(&event("e", "p", None, toast())).is_empty());
}

#[test]
fn forwards_to_every_subscriber_once() {
    let mut manager = PluginManager::new();
    manager.subscribe(text("a"));
    manager.subscribe(text("b"));
    manager.subscribe(text("a"));
    let e = event("e", "p", None, toast());
    assert_eq!(receivers(&manager, &e), vec!["a", "b"]);
    for delivery in manager.forward(&e) {
        assert_eq!(delivery.event, e);
    }
    manager.unsubscribe("a");
    assert_eq!(receivers(&manager, &e), vec!["b"]);
    manager.unsubscribe("unknown");
    assert_eq!(receivers(&manager, &e), vec!["b"]);
    manager.unsubscribe("b");
    assert!(receivers(&manager, &e).is_empty());
}

#[test]
fn a_full_queue_harms_nobody_else() {
    let mut manager = PluginManager::new();
    let (slow_tx, mut slow_rx) = tokio::sync::mpsc::channel(2);
    let (quick_tx, mut quick_rx) = tokio::sync::mpsc::channel(8);
    manager.subscribe(text("slow"));
    manager.subscribe(text("quick"));
    manager.subscribe(text("gone"));
    for id in ["e1", "e2", "e3", "e4"] {
        for delivery in manager.forward(&event(id, "p", None, toast())) {
            match delivery.rx_id.as_str() {
                "slow" => drop(slow_tx.try_send(delivery.event)),
                "quick" => drop(quick_tx.try_send(delivery.event)),
                _ => {}
            }
        }
        if id == "e3" {
            // The slow one reads one event at last
            assert_eq!(slow_rx.try_recv().unwrap().id, "e1");
        }
    }
    let mut slow = vec![];
    while let Ok(e) = slow_rx.try_recv() {
        slow.push(e.id);
    }
    let mut quick = vec![];
    while let Ok(e) = quick_rx.try_recv() {
        quick.push(e.id);
    }
    assert_eq!(slow, vec!["e2", "e4"]);
    assert_eq!(quick, vec!["e1", "e2", "e3", "e4"]);
    let last = event("e5", "p", None, toast());
    assert_eq!(receivers(&manager, &last), vec!["gone", "quick", "slow"]);
}

#[test]
fn lists_bundled_dirs_before_installed_ones() {
    let manager = PluginManager::new();
    let bundled = vec![text("/res/b"), text("/res/a")];
    let installed = vec![
        InstalledPlugin { directory: text("/home/z") },
        InstalledPlugin { directory: text("/home/y") },
    ];
    assert_eq!(
        manager.list_plugin_dirs(bundled, Ok(installed)),
        vec!["/res/b", "/res/a", "/home/z", "/home/y"]
    );
}

#[test]
fn lists_bundled_dirs_alone_where_the_others_cannot_be_read() {
    let manager = PluginManager::new();
    let failed = Err(Error::TransportErr(text("no database")));
    assert_eq!(manager.list_plugin_dirs(vec![text("a")], failed), vec!["a"]);
}

#[test]
fn adds_nothing_without_a_client() {
    let mut manager = PluginManager::new();
    let res = manager.add_plugin_by_dir("d", false, text("r"), text("x"), text("e"));
    assert_eq!(res.err(), Some(Error::ClientNotInitializedErr));
    assert_eq!(manager.plugin_count(), 0);
    assert!(receivers(&manager, &event("e", "p", None, toast())).is_empty());
}

#[test]
fn asks_an_added_plugin_to_start() {
    let mut manager = PluginManager::new();
    let boot = manager.add_plugin_by_dir("d", true, text("r"), text("x"), text("e")).unwrap();
    let plugin = PluginHandle { ref_id: text("r"), dir: text("d"), slot: 0 };
    assert_eq!(boot.plugin, plugin);
    let out = boot.exchange.next_send().unwrap();
    assert_eq!(out.plugin, plugin);
    let request = InternalEventPayload::BootRequest(BootRequest { dir: text("d") });
    assert_eq!(out.event, event("e", "r", None, request));
    assert_eq!(receivers(&manager, &event("e", "p", None, toast())), vec!["x"]);
    assert_eq!(manager.get_plugin_by_dir("d"), Some(plugin));
}

#[test]
fn asks_the_older_plugin_of_a_directory() {
    let mut manager = PluginManager::new();
    add(&mut manager, "d", "r1");
    let boot = manager.add_plugin_by_dir("d", true, text("r2"), text("x"), text("e")).unwrap();
    assert_eq!(boot.plugin.ref_id, "r1");
    assert_eq!(manager.plugin_count(), 2);
}

#[test]
fn starts_no_unknown_plugin() {
    let mut manager = PluginManager::new();
    let res = manager.start_boot("d", text("x"), text("e"));
    assert_eq!(res.err(), Some(Error::PluginNotFoundErr(text("d"))));
}

#[test]
fn keeps_what_a_started_plugin_says() {
    let mut manager = PluginManager::new();
    add(&mut manager, "d1", "r1");
    add(&mut manager, "d2", "r2");
    start(&mut manager, "r2", "second");
    let first = manager.get_plugin_by_ref_id("r1").unwrap();
    assert_eq!(manager.info(&first), None);
    let second = manager.get_plugin_by_ref_id("r2").unwrap();
    assert_eq!(manager.info(&second).unwrap().name, "second");
}

#[test]
fn knows_of_each_copy_what_the_plugin_says() {
    let mut manager = PluginManager::new();
    let boot = manager.add_plugin_by_dir("d", true, text("r"), text("x"), text("e")).unwrap();
    let early = manager.get_plugin_by_dir("d").unwrap();
    assert_eq!(manager.info(&early), None);
    let reply = event("x", "r", Some("e"), boot_response("first"));
    assert_eq!(manager.finish_boot(&boot.plugin, Ok(reply)), Ok(()));
    for copy in [&early, &boot.plugin, &early.clone()] {
        assert_eq!(manager.info(copy).unwrap().name, "first");
    }

    // Off the list, and with another plugin from the same directory
    assert_eq!(manager.remove_plugin(&early, Ok(())), Ok(()));
    add(&mut manager, "d", "r2");
    assert_eq!(manager.info(&early).unwrap().name, "first");
    let late = manager.get_plugin_by_dir("d").unwrap();
    assert_eq!(manager.info(&late), None);
}

#[test]
fn keeps_what_a_plugin_says_after_it_was_removed() {
    let mut manager = PluginManager::new();
    add(&mut manager, "d", "r");
    let plugin = manager.get_plugin_by_dir("d").unwrap();
    assert_eq!(manager.remove_plugin(&plugin, Ok(())), Ok(()));
    let reply = event("x", "r", Some("b"), boot_response("gone"));
    assert_eq!(manager.finish_boot(&plugin, Ok(reply)), Ok(()));
    assert_eq!(manager.info(&plugin).unwrap().name, "gone");
    assert_eq!(manager.get_plugin_by_name("gone"), None);
}

#[test]
fn starts_the_plugin_that_was_asked_where_two_have_one_id() {
    let mut manager = PluginManager::new();
    add(&mut manager, "d1", "same");
    add(&mut manager, "d2", "same");
    let second = manager.get_plugin_by_dir("d2").unwrap();
    let reply = event("x", "same", Some("b"), boot_response("second"));
    assert_eq!(manager.finish_boot(&second, Ok(reply)), Ok(()));
    assert_eq!(manager.info(&second).unwrap().name, "second");
    let first = manager.get_plugin_by_dir("d1").unwrap();
    assert_eq!(manager.info(&first), None);
}

#[test]
fn refuses_a_wrong_answer_to_a_start() {
    let mut manager = PluginManager::new();
    add(&mut manager, "d", "r");
    let plugin = manager.get_plugin_by_dir("d").unwrap();
    let wrong = event("x", "r", Some("b"), InternalEventPayload::EmptyResponse);
    assert_eq!(manager.finish_boot(&plugin, Ok(wrong)), Err(Error::UnknownEventErr));
    let lost = Error::TransportErr(text("lost"));
    assert_eq!(
        manager.finish_boot(&plugin, Err(lost)),
        Err(Error::TransportErr(text("lost")))
    );
    assert_eq!(manager.info(&plugin), None);
}

#[test]
fn finds_plugins_by_name_up_to_one_that_has_not_started() {
    let mut manager = PluginManager::new();
    add(&mut manager, "d1", "r1");
    add(&mut manager, "d2", "r2");
    add(&mut manager, "d3", "r3");
    start(&mut manager, "r1", "one");
    start(&mut manager, "r3", "three");
    assert_eq!(manager.get_plugin_by_name("one").unwrap().ref_id, "r1");
    assert_eq!(manager.get_plugin_by_name("three"), None);
    start(&mut manager, "r2", "two");
    assert_eq!(manager.get_plugin_by_name("three").unwrap().ref_id, "r3");
    assert_eq!(manager.get_plugin_by_name("four"), None);
}

#[test]
fn finds_the_first_of_two_plugins_with_a_name() {
    let mut manager = PluginManager::new();
    add(&mut manager, "d1", "r1");
    add(&mut manager, "d2", "r2");
    add(&mut manager, "d3", "r3");
    start(&mut manager, "r1", "other");
    start(&mut manager, "r2", "same");
    start(&mut manager, "r3", "same");
    assert_eq!(manager.get_plugin_by_name("same").unwrap().ref_id, "r2");
}

#[test]
fn uninstalls_a_terminated_plugin() {
    let mut manager = PluginManager::new();
    add(&mut manager, "d1", "r1");
    add(&mut manager, "d2", "r2");
    add(&mut manager, "d3", "r3");
    let plugin = manager.uninstall("d2").unwrap();
    assert_eq!(plugin.ref_id, "r2");
    assert_eq!(manager.remove_plugin(&plugin, Ok(())), Ok(()));
    assert_eq!(manager.plugin_count(), 2);
    assert_eq!(manager.get_plugin_by_dir("d2"), None);
    assert_eq!(manager.get_plugin_by_ref_id("r2"), None);
    assert_eq!(manager.get_plugin_by_dir("d3").unwrap().ref_id, "r3");
    assert_eq!(manager.remove_plugin(&plugin, Ok(())), Ok(()));
    assert_eq!(manager.plugin_count(), 2);
}

#[test]
fn keeps_a_plugin_that_cannot_be_terminated() {
    let mut manager = PluginManager::new();
    add(&mut manager, "d", "r");
    let plugin = manager.uninstall("d").unwrap();
    let res = manager.remove_plugin(&plugin, Err(Error::TransportErr(text("gone"))));
    assert_eq!(res, Err(Error::TransportErr(text("gone"))));
    assert_eq!(manager.plugin_count(), 1);
}

#[test]
fn uninstalls_no_unknown_plugin() {
    let manager = PluginManager::new();
    assert_eq!(manager.uninstall("d"), Err(Error::PluginNotFoundErr(text("d"))));
}

#[test]
fn terminates_for_good() {
    let mut manager = PluginManager::new();
    manager.terminate();
    assert!(manager.is_killed());
    add(&mut manager, "d", "r");
    assert!(manager.is_killed());
}

#[test]
fn replies_to_the_plugin_that_asked() {
    let mut manager = PluginManager::new();
    add(&mut manager, "d1", "r1");
    add(&mut manager, "d2", "r2");
    let source = event("question", "r2", None, toast());
    let out = manager.reply(&source, &InternalEventPayload::EmptyResponse, text("answer")).unwrap();
    assert_eq!(out.plugin.ref_id, "r2");
    assert_eq!(
        out.event,
        event("answer", "r2", Some("question"), InternalEventPayload::EmptyResponse)
    );
    let stray = event("question", "r9", None, toast());
    assert_eq!(
        manager.reply(&stray, &toast(), text("a")),
        Err(Error::PluginNotFoundErr(text("r9")))
    );
}
