use rtactor::profiling_aggregator::{ActorSelection, AggregatorCore, SnapshotStep};
use rtactor::{ActiveMailbox, Addr, Instant};

fn addr_of(mailbox: &ActiveMailbox) -> Addr {
    mailbox.addr()
}

fn now() -> Instant {
    Instant::new(std::time::Instant::now())
}

fn pairs(list: &[(&str, &Addr)]) -> Vec<(String, Addr)> {
    list.iter().map(|(n, a)| (n.to_string(), (*a).clone())).collect()
}

/// Run a snapshot to its end, answering each request with `value` pushed in the list,
/// and give the names requested, in order, and the names notified.
fn run_snapshot(
    core: &mut AggregatorCore<u32>,
    selection: &ActorSelection,
    value: u32,
) -> (Vec<u64>, Vec<String>) {
    let mut requested = Vec::new();
    let mut step = core.on_snapshot(selection, now());
    let mut request_id = 100;
    loop {
        match step {
            SnapshotStep::Nothing => panic!("a snapshot from idle never does nothing"),
            SnapshotStep::Request { addr, mut metric_list } => {
                assert!(metric_list.is_empty());
                requested.push(addr.actor_id());
                core.set_request_id(request_id);
                metric_list.push(value);
                step = core.on_metrics(request_id, metric_list);
                request_id += 1;
            }
            SnapshotStep::Notify { names, .. } => return (requested, names),
        }
    }
}

#[test]
fn test_registration() {
    let observer = ActiveMailbox::new(1);
    let profiled_0 = ActiveMailbox::new(1);
    let profiled_1 = ActiveMailbox::new(1);
    let mut core: AggregatorCore<u32> = AggregatorCore::new();

    for _i in 0..3 {
        for _j in 0..2 {
            core.register_observer(addr_of(&observer));
        }
        assert_eq!(core.observers().len(), 1);
        for _j in 0..2 {
            core.unregister_observer(&addr_of(&observer));
        }
        assert_eq!(core.observers().len(), 0);

        core.register_profiled_actors(&pairs(&[
            ("actor_1", &addr_of(&profiled_0)),
            ("actor_2", &addr_of(&profiled_0)),
        ]));
        core.unregister_profiled_actors(&ActorSelection::All);
        let (requested, names) = run_snapshot(&mut core, &ActorSelection::All, 1);
        assert!(requested.is_empty());
        assert!(names.is_empty());
    }

    core.register_profiled_actors(&pairs(&[
        ("actor_1", &addr_of(&profiled_0)),
        ("actor_2", &addr_of(&profiled_1)),
    ]));
    core.unregister_profiled_actors(&ActorSelection::SelectedNames(vec![
        "actor_1".to_string(),
        "unknown_is_valid".to_string(),
    ]));
    let (requested, names) = run_snapshot(&mut core, &ActorSelection::All, 1);
    assert_eq!(requested, vec![profiled_1.addr().actor_id()]);
    assert_eq!(names, vec!["actor_2".to_string()]);

    core.unregister_profiled_actors(&ActorSelection::SelectedAddresses(vec![
        addr_of(&profiled_1),
        Addr::INVALID,
    ]));
    let (requested, names) = run_snapshot(&mut core, &ActorSelection::All, 1);
    assert!(requested.is_empty());
    assert!(names.is_empty());
}

#[test]
fn test_simple() {
    let observer = ActiveMailbox::new(1);
    let profiled = ActiveMailbox::new(1);
    let mut core: AggregatorCore<u32> = AggregatorCore::new();

    for i in 0..3 {
        core.register_observer(addr_of(&observer));
        let name = format!("actor0_loop{}", i);
        core.register_profiled_actors(&pairs(&[(name.as_str(), &addr_of(&profiled))]));

        let (requested, names) = run_snapshot(&mut core, &ActorSelection::All, 23);
        assert_eq!(requested, vec![profiled.addr().actor_id()]);
        assert_eq!(names, vec![name.clone()]);
        assert_eq!(core.observers().len(), 1);
        assert_eq!(core.observers()[0].actor_id(), observer.addr().actor_id());

        let report = core.report(&names);
        assert_eq!(report.len(), 1);
        assert_eq!(report[0].0, name);
        assert_eq!(report[0].1, vec![23]);

        core.unregister_observer(&addr_of(&observer));
        core.unregister_profiled_actors(&ActorSelection::SelectedNames(vec![name]));
        assert!(core.observers().is_empty());
    }
}

#[test]
fn test_multiple() {
    let observers: Vec<ActiveMailbox> = (0..3).map(|_| ActiveMailbox::new(1)).collect();
    let profiled: Vec<ActiveMailbox> = (0..3).map(|_| ActiveMailbox::new(1)).collect();
    let mut core: AggregatorCore<u32> = AggregatorCore::new();

    for i in 0..3 {
        for observer in &observers {
            core.register_observer(observer.addr());
        }
        for (j, p) in profiled.iter().enumerate() {
            core.register_profiled_actors(&vec![(format!("loop{}_profiled{}", i, j), p.addr())]);
        }

        let (requested, names) = run_snapshot(&mut core, &ActorSelection::All, 7);
        let expected_ids: Vec<u64> = profiled.iter().map(|p| p.addr().actor_id()).collect();
        assert_eq!(requested, expected_ids);
        let expected_names: Vec<String> = (0..3).map(|j| format!("loop{}_profiled{}", i, j)).collect();
        assert_eq!(names, expected_names);

        // The observers come by increasing identifier.
        let ids: Vec<u64> = core.observers().iter().map(|a| a.actor_id()).collect();
        let mut sorted = ids.clone();
        sorted.sort();
        assert_eq!(ids, sorted);
        assert_eq!(ids.len(), 3);

        let report = core.report(&names);
        assert_eq!(report.len(), 3);
        for (j, (name, list)) in report.iter().enumerate() {
            assert_eq!(*name, format!("loop{}_profiled{}", i, j));
            assert_eq!(*list, vec![7]);
        }

        for observer in &observers {
            core.unregister_observer(&observer.addr());
        }
        core.unregister_profiled_actors(&ActorSelection::All);
    }
}

#[test]
fn snapshot_in_name_order_and_selection() {
    let a = ActiveMailbox::new(1);
    let b = ActiveMailbox::new(1);
    let c = ActiveMailbox::new(1);
    let mut core: AggregatorCore<u32> = AggregatorCore::new();
    core.register_profiled_actors(&pairs(&[
        ("zeta", &addr_of(&a)),
        ("alpha", &addr_of(&b)),
        ("mid", &addr_of(&c)),
    ]));

    // All: by increasing name.
    let (requested, names) = run_snapshot(&mut core, &ActorSelection::All, 1);
    assert_eq!(names, vec!["alpha".to_string(), "mid".to_string(), "zeta".to_string()]);
    assert_eq!(
        requested,
        vec![b.addr().actor_id(), c.addr().actor_id(), a.addr().actor_id()]
    );

    // Names: in the given order, unknown names are notified but not requested.
    let (requested, names) = run_snapshot(
        &mut core,
        &ActorSelection::SelectedNames(vec![
            "zeta".to_string(),
            "unknown".to_string(),
            "alpha".to_string(),
        ]),
        2,
    );
    assert_eq!(requested, vec![a.addr().actor_id(), b.addr().actor_id()]);
    assert_eq!(names, vec!["zeta".to_string(), "unknown".to_string(), "alpha".to_string()]);
    let report = core.report(&names);
    assert_eq!(
        report,
        vec![("zeta".to_string(), vec![2]), ("alpha".to_string(), vec![2])]
    );

    // Addresses: the registered names of these addresses, by increasing name.
    let (requested, names) = run_snapshot(
        &mut core,
        &ActorSelection::SelectedAddresses(vec![a.addr(), c.addr()]),
        3,
    );
    assert_eq!(names, vec!["mid".to_string(), "zeta".to_string()]);
    assert_eq!(requested, vec![c.addr().actor_id(), a.addr().actor_id()]);
}

#[test]
fn snapshot_while_processing_appends_missing_names() {
    let a = ActiveMailbox::new(1);
    let b = ActiveMailbox::new(1);
    let mut core: AggregatorCore<u32> = AggregatorCore::new();
    core.register_profiled_actors(&pairs(&[("a", &addr_of(&a)), ("b", &addr_of(&b))]));

    let step = core.on_snapshot(&ActorSelection::SelectedNames(vec!["a".to_string()]), now());
    let list = match step {
        SnapshotStep::Request { addr, metric_list } => {
            assert_eq!(addr.actor_id(), a.addr().actor_id());
            metric_list
        }
        _ => panic!("expected a request"),
    };
    core.set_request_id(5);

    // A second request during the snapshot adds the missing names, once each.
    let step = core.on_snapshot(
        &ActorSelection::SelectedNames(vec!["b".to_string(), "a".to_string(), "b".to_string()]),
        now(),
    );
    assert!(matches!(step, SnapshotStep::Nothing));

    // A response with another identifier is ignored.
    assert!(matches!(core.on_metrics(4, Vec::new()), SnapshotStep::Nothing));

    let step = core.on_metrics(5, list);
    let list = match step {
        SnapshotStep::Request { addr, metric_list } => {
            assert_eq!(addr.actor_id(), b.addr().actor_id());
            metric_list
        }
        _ => panic!("expected a request"),
    };
    core.set_request_id(6);
    match core.on_metrics(6, list) {
        SnapshotStep::Notify { names, .. } => {
            assert_eq!(names, vec!["a".to_string(), "b".to_string()])
        }
        _ => panic!("expected the notification"),
    }
}

#[test]
fn error_response_asks_again() {
    let a = ActiveMailbox::new(1);
    let mut core: AggregatorCore<u32> = AggregatorCore::new();
    core.register_profiled_actors(&pairs(&[("a", &addr_of(&a))]));
    let timestamp = now();
    assert!(matches!(
        core.on_snapshot(&ActorSelection::All, timestamp),
        SnapshotStep::Request { .. }
    ));
    core.set_request_id(9);
    // Not the awaited one: nothing.
    assert!(matches!(core.on_error_response(8), SnapshotStep::Nothing));
    // The awaited one: the same actor is asked again.
    match core.on_error_response(9) {
        SnapshotStep::Request { addr, metric_list } => {
            assert_eq!(addr.actor_id(), a.addr().actor_id());
            assert!(metric_list.is_empty());
        }
        _ => panic!("expected a request"),
    }
    core.set_request_id(10);
    match core.on_metrics(10, vec![4, 5]) {
        SnapshotStep::Notify { names, timestamp: t } => {
            assert_eq!(names, vec!["a".to_string()]);
            assert!(t == timestamp);
        }
        _ => panic!("expected the notification"),
    }
    // The kept list is handed back, cleared, at the next snapshot.
    match core.on_snapshot(&ActorSelection::All, now()) {
        SnapshotStep::Request { metric_list, .. } => assert!(metric_list.is_empty()),
        _ => panic!("expected a request"),
    }
}

#[test]
fn registering_again_replaces_address_and_list() {
    let a = ActiveMailbox::new(1);
    let b = ActiveMailbox::new(1);
    let mut core: AggregatorCore<u32> = AggregatorCore::new();
    core.register_profiled_actors(&pairs(&[("x", &addr_of(&a))]));
    let (_, names) = run_snapshot(&mut core, &ActorSelection::All, 3);
    assert_eq!(core.report(&names), vec![("x".to_string(), vec![3])]);

    core.register_profiled_actors(&pairs(&[("x", &addr_of(&b))]));
    // The new entry has an empty list and the new address.
    assert_eq!(core.report(&names), vec![("x".to_string(), vec![])]);
    let (requested, _) = run_snapshot(&mut core, &ActorSelection::All, 3);
    assert_eq!(requested, vec![b.addr().actor_id()]);
}
