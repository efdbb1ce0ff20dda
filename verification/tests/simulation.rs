use rtactor::simulation::SimulationDispatcher;
use rtactor::{
    dispatcher, send_notification, ActiveActor, Addr, Behavior, Message, ProcessContext, Timer,
};
use std::vec::Vec;

use std::time::Duration;

const TEST_TIMEOUT: Duration = Duration::from_secs(60);

#[test]
fn empty_simulation_dispatcher() {
    let mut disp = SimulationDispatcher::new(10);
    disp.process_for(Duration::from_secs(1));
    disp.process_until(disp.now() + Duration::from_micros(1));
}

#[test]
/// A simple example code of a reactive actor simulation.
fn simple_simulation_dispatcher() {
    // A very simple reactive actor that allows incrementing and querying an integer.
    struct TestReactive {
        pub val: i32,
    }

    enum Notification {
        Increment(i32),
    }

    enum Request {
        GetValue,
        ToString(String /*label*/),
    }

    enum Response {
        GetValue(i32),
        ToString(String),
    }

    impl Behavior for TestReactive {
        fn process_message(&mut self, context: &mut ProcessContext, msg: &Message) {
            match msg {
                Message::Notification(notif) => {
                    if let Some(notif) = notif.data.downcast_ref::<Notification>() {
                        match notif {
                            Notification::Increment(increment) => self.val += increment,
                        }
                    }
                }
                Message::Request(request) => {
                    if let Some(data) = request.data.downcast_ref::<Request>() {
                        match data {
                            Request::GetValue => {
                                context.send_response(request, Response::GetValue(self.val))
                            }

                            Request::ToString(label) => context.send_response(
                                request,
                                Response::ToString(format!("{label}: {}", self.val)),
                            ),
                        }
                    }
                }
                _ => panic!(),
            }
        }
    }

    // Create a simulation dispatcher.
    let mut disp = SimulationDispatcher::new(10);

    // Create a reactive object on the heap.
    let test_reactive = Box::new(TestReactive { val: 0 });

    // Move it inside the dispatcher. It starts the dispatch of messages for it.
    let test_reactive_addr = disp.register_reactive(test_reactive);

    // Send a notification to the reactive.
    send_notification(&test_reactive_addr, Notification::Increment(10)).unwrap();

    // Create an active object to interact with the reactive under test.
    let mut prober = ActiveActor::new(1);

    // Ask the simulation dispatcher to simulate a request by the active actor.
    let result = disp.active_request_for::<_, Response>(
        &mut prober,
        &test_reactive_addr,
        Request::GetValue,
        Duration::from_secs(10),
    );
    if let Ok(Response::GetValue(val)) = result {
        assert_eq!(val, 10);
    } else {
        panic!();
    }

    // An other notification.
    send_notification(&test_reactive_addr, Notification::Increment(-3)).unwrap();

    // An other different request.
    let str = match disp.active_request_for(
        &mut prober,
        &test_reactive_addr,
        Request::ToString("the value".to_string()),
        Duration::from_secs(1),
    ) {
        Ok(Response::ToString(str)) => str,
        _ => panic!(),
    };
    assert!(str == "the value: 7");
}

/// Schedule some timeout and check that it works properly.
#[test]
fn simulation_timer_test() {
    struct Tester {
        begin: rtactor::Instant,
        timers: Vec<Timer>,
        index: usize,
        observer: Addr,
    }
    enum Notification {
        Start(),
        Finished(),
    }

    impl Tester {
        pub fn new(observer_addr: &rtactor::Addr) -> Tester {
            Tester {
                timers: Vec::new(),
                begin: rtactor::Instant::INFINITY,
                index: 0,
                observer: observer_addr.clone(),
            }
        }
    }
    impl Behavior for Tester {
        fn process_message(&mut self, context: &mut ProcessContext, msg: &Message) {
            match msg {
                Message::Request(_) => panic!(),
                Message::Response(_) => panic!(),
                Message::Notification(notif) => {
                    if let Some(notif) = notif.data.downcast_ref() {
                        match notif {
                            Notification::Start() => {
                                // Schedule a number of timeouts.

                                let now = context.now();
                                self.begin = now;
                                for _ in 0..5 {
                                    self.timers.push(Timer::new())
                                }
                                context.schedule_until(
                                    &mut self.timers[0],
                                    now + Duration::from_millis(5),
                                );
                                context.schedule_until(
                                    &mut self.timers[1],
                                    now + Duration::from_millis(6),
                                );
                                context.schedule_until(
                                    &mut self.timers[2],
                                    now + Duration::from_millis(0),
                                );
                                context.schedule_until(
                                    &mut self.timers[3],
                                    now + Duration::from_millis(55),
                                );
                                context.schedule_until(
                                    &mut self.timers[4],
                                    now + Duration::from_millis(230),
                                );
                            }
                            Notification::Finished() => panic!(),
                        }
                    } else if self.timers[2].is_scheduling(notif) {
                        assert_eq!(self.index, 0);
                        assert!(
                            context.now().saturating_sub(&self.begin) >= Duration::from_millis(0)
                        );
                        self.index += 1;

                        for i in 0..self.timers.len() {
                            if i != 2 {
                                assert!(!self.timers[i].is_scheduling(notif), "i={i}");
                            } else {
                                assert!(self.timers[i].is_scheduling(notif), "i={i}")
                            }
                        }
                    } else if self.timers[0].is_scheduling(notif) {
                        assert!(self.index == 1);
                        assert!(
                            context.now().saturating_sub(&self.begin) == Duration::from_millis(5)
                        );
                        self.index += 1;
                    } else if self.timers[1].is_scheduling(notif) {
                        assert!(self.index == 2);
                        assert!(
                            context.now().saturating_sub(&self.begin) == Duration::from_millis(6)
                        );
                        self.index += 1;
                    } else if self.timers[3].is_scheduling(notif) {
                        assert!(self.index == 3);
                        assert!(
                            context.now().saturating_sub(&self.begin) == Duration::from_millis(55)
                        );
                        self.index += 1;
                    } else if self.timers[4].is_scheduling(notif) {
                        assert!(
                            context.now().saturating_sub(&self.begin) == Duration::from_millis(230)
                        );
                        context
                            .send_notification(&self.observer, Notification::Finished())
                            .unwrap();
                    }
                }
            }
        }
    }

    let mut observer = ActiveActor::new(1);

    let mut disp = SimulationDispatcher::new(1);

    let tester_addr = disp.register_reactive(Box::new(Tester::new(&observer.addr())));

    observer
        .send_notification(&tester_addr, Notification::Start())
        .unwrap();

    let notif = match disp.active_wait_message_for(&mut observer, TEST_TIMEOUT) {
        Ok(Message::Notification(notif)) => notif,
        _ => panic!(),
    };
    assert!(matches!(
        notif.data.downcast_ref(),
        Some(Notification::Finished())
    ));

    let disp_addr = disp.addr();
    assert!(matches!(
        disp.active_request_for(
            &mut observer,
            &disp_addr,
            dispatcher::Request::StopDispatcher {},
            TEST_TIMEOUT,
        ),
        Ok(dispatcher::Response::StopDispatcher())
    ));
}

#[test]
fn test_replace_reactive() {
    // Create a simulation dispatcher.
    let mut disp = SimulationDispatcher::new(10);

    // Create a reactive object on the heap.
    let test_reactive_1 = Box::<rtactor::DummyBehavior>::default();

    // Move it inside the dispatcher. It starts the dispatch of messages for it.
    let test_reactive_addr = disp.register_reactive(test_reactive_1);

    // Create another reactive object.
    let test_reactive_2 = Box::<rtactor::DummyBehavior>::default();

    // Replace the first reactive by the second.
    let result = disp.replace_reactive(&test_reactive_addr, test_reactive_2);
    match result {
        Ok(_behaviour) => {}
        Err(_) => panic!("Error replacing the reactive."),
    }
}

/// A reactive that answers each request with its data, a `u32`.
struct Echo;

impl Behavior for Echo {
    fn process_message(&mut self, context: &mut ProcessContext, msg: &Message) {
        if let Message::Request(request) = msg {
            if let Some(v) = request.data.downcast_ref::<u32>() {
                context.send_response(request, *v);
            }
        }
    }
}

#[test]
fn request_with_an_other_response_type_fails_to_downcast() {
    let mut disp = SimulationDispatcher::new(10);
    let echo = disp.register_reactive(Box::new(Echo));
    let mut prober = ActiveActor::new(1);

    let ok = disp.active_request_for::<_, u32>(&mut prober, &echo, 5u32, TEST_TIMEOUT);
    assert_eq!(ok.unwrap(), 5);

    let wrong = disp.active_request_for::<_, String>(&mut prober, &echo, 6u32, TEST_TIMEOUT);
    assert!(matches!(wrong, Err(rtactor::Error::DowncastFailed)));
}

#[test]
fn request_to_a_removed_reactive_gets_actor_disappeared() {
    let mut disp = SimulationDispatcher::new(10);
    let echo = disp.register_reactive(Box::new(Echo));
    let disp_addr = disp.addr();
    let mut prober = ActiveActor::new(1);

    // Stopping the dispatcher drops its reactives; its queue stays in the simulation.
    let stopped = disp.active_request_for::<_, dispatcher::Response>(
        &mut prober,
        &disp_addr,
        dispatcher::Request::StopDispatcher {},
        TEST_TIMEOUT,
    );
    assert!(matches!(stopped, Ok(dispatcher::Response::StopDispatcher())));

    let lost = disp.active_request_for::<_, u32>(&mut prober, &echo, 7u32, TEST_TIMEOUT);
    assert!(matches!(lost, Err(rtactor::Error::ActorDisappeared)));
}

#[test]
fn request_to_an_invalid_address_is_unreachable() {
    let mut disp = SimulationDispatcher::new(10);
    let mut prober = ActiveActor::new(1);
    let r = disp.active_request_for::<_, u32>(&mut prober, &Addr::INVALID, 7u32, TEST_TIMEOUT);
    assert!(matches!(r, Err(rtactor::Error::AddrUnreachable)));
}

#[test]
fn simulated_time_moves_by_the_duration_asked() {
    let mut disp = SimulationDispatcher::new(10);
    let begin = disp.now();
    disp.process_for(Duration::from_secs(3600));
    assert!(disp.now().saturating_sub(&begin) == Duration::from_secs(3600));
    let target = disp.now() + Duration::from_millis(5);
    disp.process_until(target);
    assert!(disp.now() == target);
    // A limit in the past leaves the time where it is.
    disp.process_until(begin);
    assert!(disp.now() == target);
}

#[test]
fn message_put_aside_is_waited_first() {
    let mut disp = SimulationDispatcher::new(10);
    let mut mailbox = ActiveActor::new(4);
    send_notification(&mailbox.addr(), 77u8).unwrap();
    // The request fails at once; the notification met on the way is put aside.
    assert!(matches!(
        mailbox.request_for::<_, u32>(&Addr::INVALID, 1u32, TEST_TIMEOUT),
        Err(rtactor::Error::AddrUnreachable)
    ));
    match disp.active_wait_message_for(&mut mailbox, Duration::ZERO) {
        Ok(Message::Notification(n)) => assert_eq!(*n.data.downcast_ref::<u8>().unwrap(), 77),
        _ => panic!(),
    }
}

#[test]
fn process_until_cond_with_a_never_breaking_function_reaches_the_limit() {
    let mut disp = SimulationDispatcher::new(10);
    let begin = disp.now();
    let mut calls = 0u32;
    disp.process_for_cond(Duration::from_millis(20), || {
        calls += 1;
        std::ops::ControlFlow::Continue(())
    });
    assert!(calls > 0);
    assert!(disp.now().saturating_sub(&begin) == Duration::from_millis(20));
}

#[test]
fn a_stop_request_is_answered_and_ends_the_run() {
    let mut disp = SimulationDispatcher::new(10);
    disp.register_reactive(Box::new(rtactor::DummyBehavior()));
    let mut prober = ActiveActor::new(1);
    let begin = disp.now();
    let disp_addr = disp.addr();
    let r = disp.active_request_for::<_, dispatcher::Response>(
        &mut prober,
        &disp_addr,
        dispatcher::Request::StopDispatcher {},
        TEST_TIMEOUT,
    );
    assert!(matches!(r, Ok(dispatcher::Response::StopDispatcher())));
    // The request was processed at once, without moving the time.
    assert!(disp.now() == begin);
}

#[test]
fn a_timer_due_at_the_limit_fires_in_the_next_run() {
    struct Late {
        timer: Timer,
        fired: std::sync::Arc<std::sync::atomic::AtomicU32>,
    }
    impl Behavior for Late {
        fn process_message(&mut self, context: &mut ProcessContext, msg: &Message) {
            if let Message::Notification(notif) = msg {
                if notif.data.downcast_ref::<u8>().is_some() {
                    let deadline = context.now() + Duration::from_millis(10);
                    context.schedule_until(&mut self.timer, deadline);
                } else if self.timer.is_scheduling(notif) {
                    self.fired.fetch_add(1, std::sync::atomic::Ordering::SeqCst);
                }
            }
        }
    }
    let fired = std::sync::Arc::new(std::sync::atomic::AtomicU32::new(0));
    let mut disp = SimulationDispatcher::new(10);
    let addr = disp.register_reactive(Box::new(Late { timer: Timer::new(), fired: fired.clone() }));
    let begin = disp.now();
    send_notification(&addr, 1u8).unwrap();
    disp.process_until(begin + Duration::from_millis(10));
    assert_eq!(fired.load(std::sync::atomic::Ordering::SeqCst), 0);
    assert!(disp.now().saturating_sub(&begin) == Duration::from_millis(10));
    // A run that does not move the time does not send it either.
    disp.process_for(Duration::ZERO);
    assert_eq!(fired.load(std::sync::atomic::Ordering::SeqCst), 0);
    disp.process_for(Duration::from_millis(1));
    assert_eq!(fired.load(std::sync::atomic::Ordering::SeqCst), 1);
    assert!(disp.now().saturating_sub(&begin) == Duration::from_millis(11));
}

#[test]
fn registered_reactives_get_distinct_addresses() {
    let mut disp = SimulationDispatcher::new(10);
    let mut addrs: Vec<Addr> = Vec::new();
    for _ in 0..20 {
        addrs.push(disp.register_reactive(Box::new(rtactor::DummyBehavior())));
    }
    for i in 0..addrs.len() {
        assert!(addrs[i] != disp.addr());
        for j in 0..i {
            assert!(addrs[i] != addrs[j]);
        }
    }
}

#[test]
fn a_timer_scheduled_in_the_past_at_the_limit_waits_for_the_next_run() {
    struct Late {
        timer: Timer,
        fired: std::sync::Arc<std::sync::atomic::AtomicU32>,
    }
    impl Behavior for Late {
        fn process_message(&mut self, context: &mut ProcessContext, msg: &Message) {
            if let Message::Notification(notif) = msg {
                if let Some(before) = notif.data.downcast_ref::<rtactor::Instant>() {
                    context.schedule_until(&mut self.timer, *before);
                } else if self.timer.is_scheduling(notif) {
                    self.fired.fetch_add(1, std::sync::atomic::Ordering::SeqCst);
                }
            }
        }
    }
    let fired = std::sync::Arc::new(std::sync::atomic::AtomicU32::new(0));
    let mut disp = SimulationDispatcher::new(10);
    let addr = disp.register_reactive(Box::new(Late { timer: Timer::new(), fired: fired.clone() }));
    let begin = disp.now();
    disp.process_for(Duration::from_millis(10));
    // At the limit, the reactive schedules a timer whose deadline has already passed.
    send_notification(&addr, begin).unwrap();
    disp.process_for(Duration::ZERO);
    assert_eq!(fired.load(std::sync::atomic::Ordering::SeqCst), 0);
    disp.process_for(Duration::from_millis(1));
    assert_eq!(fired.load(std::sync::atomic::Ordering::SeqCst), 1);
}
