use yaak_plugin_runtime::error::Error;
use yaak_plugin_runtime::events::{BootResponse, InternalEvent, InternalEventPayload};
use yaak_plugin_runtime::initialization::{InitAction, InitEvent};
use yaak_plugin_runtime::manager::PluginManager;

fn text(s: &str) -> String {
    s.to_string()
}

fn prepared(connected: bool, ref_id: &str) -> InitEvent {
    InitEvent::Prepared {
        connected,
        ref_id: text(ref_id),
        rx_id: format!("rx-{ref_id}"),
        event_id: format!("ev-{ref_id}"),
    }
}

fn booted(name: &str) -> InitEvent {
    InitEvent::Booted(Ok(InternalEvent {
        id: text("reply"),
        plugin_ref_id: text("p"),
        reply_id: Some(text("ev")),
        payload: InternalEventPayload::BootResponse(BootResponse {
            name: text(name),
            body: text("{}"),
        }),
    }))
}

#[test]
fn loads_each_directory_in_turn() {
    let mut manager = PluginManager::new();
    let mut init = manager.initialize_all_plugins(vec![text("d1"), text("d2")]);
    for (dir, ref_id) in [("d1", "r1"), ("d2", "r2")] {
        assert!(matches!(init.step(&mut manager, InitEvent::Ready), InitAction::Prepare(_)));
        match init.step(&mut manager, prepared(true, ref_id)) {
            InitAction::Boot(boot) => {
                assert_eq!(boot.plugin.dir, dir);
                assert_eq!(boot.plugin.ref_id, ref_id);
                assert_eq!(boot.exchange.rx_id(), format!("rx-{ref_id}"));
            }
            other => panic!("{other:?}"),
        }
        assert!(matches!(init.step(&mut manager, booted(dir)), InitAction::Loaded));
    }
    assert!(matches!(init.step(&mut manager, InitEvent::Ready), InitAction::Done));
    assert_eq!(manager.plugin_count(), 2);
    assert_eq!(manager.get_plugin_by_name("d2").unwrap().ref_id, "r2");
}

#[test]
fn replaces_a_plugin_that_is_loaded_again() {
    let mut manager = PluginManager::new();
    manager.add_plugin_by_dir("d", true, text("old"), text("x"), text("e")).unwrap();
    let mut init = manager.initialize_all_plugins(vec![text("d")]);
    match init.step(&mut manager, InitEvent::Ready) {
        InitAction::Terminate(plugin) => assert_eq!(plugin.ref_id, "old"),
        other => panic!("{other:?}"),
    }
    assert!(matches!(init.step(&mut manager, InitEvent::Terminated(Ok(()))), InitAction::Prepare(_)));
    assert!(matches!(init.step(&mut manager, prepared(true, "new")), InitAction::Boot(_)));
    assert!(matches!(init.step(&mut manager, booted("n")), InitAction::Loaded));
    assert_eq!(manager.plugin_count(), 1);
    assert_eq!(manager.get_plugin_by_dir("d").unwrap().ref_id, "new");
}

#[test]
fn loads_beside_a_plugin_that_cannot_be_terminated() {
    let mut manager = PluginManager::new();
    manager.add_plugin_by_dir("d", true, text("old"), text("x"), text("e")).unwrap();
    let mut init = manager.initialize_all_plugins(vec![text("d")]);
    init.step(&mut manager, InitEvent::Ready);
    let failed = InitEvent::Terminated(Err(Error::TransportErr(text("stuck"))));
    assert!(matches!(init.step(&mut manager, failed), InitAction::Prepare(_)));
    match init.step(&mut manager, prepared(true, "new")) {
        InitAction::Boot(boot) => assert_eq!(boot.plugin.ref_id, "old"),
        other => panic!("{other:?}"),
    }
    assert_eq!(manager.plugin_count(), 2);
}

#[test]
fn skips_what_cannot_be_loaded() {
    let mut manager = PluginManager::new();
    let mut init = manager.initialize_all_plugins(vec![text("d1"), text("d2"), text("d3")]);
    init.step(&mut manager, InitEvent::Ready);
    match init.step(&mut manager, prepared(false, "r1")) {
        InitAction::Skip { dir, error } => {
            assert_eq!(dir, "d1");
            assert_eq!(error, Error::ClientNotInitializedErr);
        }
        other => panic!("{other:?}"),
    }
    init.step(&mut manager, InitEvent::Ready);
    init.step(&mut manager, prepared(true, "r2"));
    let lost = InitEvent::Booted(Err(Error::TransportErr(text("lost"))));
    match init.step(&mut manager, lost) {
        InitAction::Skip { dir, error } => {
            assert_eq!(dir, "d2");
            assert_eq!(error, Error::TransportErr(text("lost")));
        }
        other => panic!("{other:?}"),
    }
    init.step(&mut manager, InitEvent::Ready);
    init.step(&mut manager, prepared(true, "r3"));
    let wrong = InitEvent::Booted(Ok(InternalEvent {
        id: text("reply"),
        plugin_ref_id: text("r3"),
        reply_id: None,
        payload: InternalEventPayload::EmptyResponse,
    }));
    match init.step(&mut manager, wrong) {
        InitAction::Skip { dir, error } => {
            assert_eq!(dir, "d3");
            assert_eq!(error, Error::UnknownEventErr);
        }
        other => panic!("{other:?}"),
    }
    assert!(matches!(init.step(&mut manager, InitEvent::Ready), InitAction::Done));
    assert_eq!(manager.plugin_count(), 2);
}

#[test]
fn does_nothing_on_an_event_out_of_turn() {
    let mut manager = PluginManager::new();
    let mut init = manager.initialize_all_plugins(vec![text("d")]);
    assert!(matches!(
        init.step(&mut manager, prepared(true, "r")),
        InitAction::Unexpected
    ));
    assert!(matches!(init.step(&mut manager, booted("n")), InitAction::Unexpected));
    assert_eq!(manager.plugin_count(), 0);
    assert!(matches!(init.step(&mut manager, InitEvent::Ready), InitAction::Prepare(_)));
    assert!(matches!(init.step(&mut manager, InitEvent::Ready), InitAction::Unexpected));
}

#[test]
fn is_done_at_once_without_directories() {
    let mut manager = PluginManager::new();
    let mut init = manager.initialize_all_plugins(vec![]);
    assert!(matches!(init.step(&mut manager, InitEvent::Ready), InitAction::Done));
}

/// Goes through a whole loading. The plugins answer what `reply` says, and the ids are
/// numbered with `tag` before them.
fn load(
    manager: &mut PluginManager,
    dirs: &[&str],
    connected: bool,
    tag: &str,
    reply: fn(&str) -> InitEvent,
) {
    let mut init = manager.initialize_all_plugins(dirs.iter().map(|d| text(d)).collect());
    let mut action = init.step(manager, InitEvent::Ready);
    let mut ids = 0;
    loop {
        let event = match action {
            InitAction::Terminate(_) => InitEvent::Terminated(Ok(())),
            InitAction::Prepare(_) => {
                ids += 1;
                prepared(connected, &format!("{tag}{ids}"))
            }
            InitAction::Boot(boot) => reply(&boot.plugin.dir),
            InitAction::Skip { .. } | InitAction::Loaded => InitEvent::Ready,
            InitAction::Unexpected => panic!("an event out of turn"),
            InitAction::Done => return,
        };
        action = init.step(manager, event);
    }
}

/// The directories and ids of the plugins, in their order.
fn plugins(manager: &mut PluginManager) -> Vec<(String, String)> {
    let ids = (0..manager.plugin_count()).map(|i| format!("e{i}")).collect();
    let (mut exchange, _) = manager.get_template_functions(text("rx"), ids);
    let mut found = vec![];
    while let Some(out) = exchange.next_send() {
        found.push((text(&out.plugin.dir), text(&out.plugin.ref_id)));
        exchange.sent(Ok(())).unwrap();
    }
    found
}

fn pairs(expected: &[(&str, &str)]) -> Vec<(String, String)> {
    expected.iter().map(|(dir, ref_id)| (text(dir), text(ref_id))).collect()
}

fn add_four(manager: &mut PluginManager) {
    for (dir, ref_id) in [("o1", "old1"), ("b", "old2"), ("o2", "old3"), ("a", "old4")] {
        manager.add_plugin_by_dir(dir, true, text(ref_id), text("x"), text("e")).unwrap();
    }
}

#[test]
fn leaves_one_plugin_for_each_directory_behind_the_others() {
    let mut manager = PluginManager::new();
    add_four(&mut manager);
    // `a` is named twice, and `c` never starts
    load(&mut manager, &["a", "c", "b", "a"], true, "new", |dir| {
        if dir == "c" {
            InitEvent::Booted(Err(Error::TransportErr(text("lost"))))
        } else {
            booted(dir)
        }
    });
    assert_eq!(
        plugins(&mut manager),
        pairs(&[("o1", "old1"), ("o2", "old3"), ("c", "new2"), ("b", "new3"), ("a", "new4")])
    );
}

#[test]
fn keeps_the_order_of_directories_when_they_are_loaded_again() {
    let mut manager = PluginManager::new();
    add_four(&mut manager);
    load(&mut manager, &["b", "a", "b", "c"], true, "n", booted);
    let first = plugins(&mut manager);
    load(&mut manager, &["b", "a", "b", "c"], true, "m", booted);
    let second = plugins(&mut manager);
    let dirs = |found: &[(String, String)]| {
        found.iter().map(|(dir, _)| dir.clone()).collect::<Vec<String>>()
    };
    assert_eq!(dirs(&first), vec!["o1", "o2", "a", "b", "c"]);
    assert_eq!(dirs(&second), dirs(&first));
    assert_eq!(
        second,
        pairs(&[("o1", "old1"), ("o2", "old3"), ("a", "m2"), ("b", "m3"), ("c", "m4")])
    );
}

#[test]
fn starts_each_plugin_that_answers() {
    let mut manager = PluginManager::new();
    add_four(&mut manager);
    load(&mut manager, &["a", "b"], true, "n", booted);
    for dir in ["a", "b"] {
        let plugin = manager.get_plugin_by_dir(dir).unwrap();
        assert_eq!(manager.info(&plugin).unwrap().name, dir);
    }
    let other = manager.get_plugin_by_dir("o1").unwrap();
    assert_eq!(manager.info(&other), None);
}

#[test]
fn only_removes_without_a_client() {
    let mut manager = PluginManager::new();
    add_four(&mut manager);
    load(&mut manager, &["a", "b", "c"], false, "n", booted);
    assert_eq!(plugins(&mut manager), pairs(&[("o1", "old1"), ("o2", "old3")]));
}

#[test]
fn names_the_directory_that_is_next() {
    let mut manager = PluginManager::new();
    manager.add_plugin_by_dir("d2", true, text("old"), text("x"), text("e")).unwrap();
    let mut init = manager.initialize_all_plugins(vec![text("d1"), text("d2")]);
    match init.step(&mut manager, InitEvent::Ready) {
        InitAction::Prepare(dir) => assert_eq!(dir, "d1"),
        other => panic!("{other:?}"),
    }
    init.step(&mut manager, prepared(false, "r"));
    init.step(&mut manager, InitEvent::Ready);
    match init.step(&mut manager, InitEvent::Terminated(Ok(()))) {
        InitAction::Prepare(dir) => assert_eq!(dir, "d2"),
        other => panic!("{other:?}"),
    }
}

#[test]
fn removes_the_wrong_plugin_where_an_id_is_in_use() {
    let mut manager = PluginManager::new();
    add_four(&mut manager);
    // The new plugin from `c` has the id of the one from `o1`, so the second round for
    // `c` takes that one off the list
    let mut init = manager.initialize_all_plugins(vec![text("c"), text("c")]);
    init.step(&mut manager, InitEvent::Ready);
    init.step(&mut manager, prepared(true, "old1"));
    init.step(&mut manager, booted("c"));
    match init.step(&mut manager, InitEvent::Ready) {
        InitAction::Terminate(plugin) => assert_eq!(plugin.dir, "c"),
        other => panic!("{other:?}"),
    }
    init.step(&mut manager, InitEvent::Terminated(Ok(())));
    assert_eq!(
        plugins(&mut manager),
        pairs(&[("b", "old2"), ("o2", "old3"), ("a", "old4"), ("c", "old1")])
    );
}
