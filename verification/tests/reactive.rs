use rtactor::dispatcher::{self, Dispatcher, ExecutableFnSlot};
use rtactor::simulation::SimulationDispatcher;
use rtactor::{send_notification, ActiveMailbox, Error};
use std::time::Duration;

const TEST_TIMEOUT: Duration = Duration::from_secs(10);

#[test]
fn execute_fn_in_dispatcher() {
    let mut disp = SimulationDispatcher::new(10);
    let disp_addr = disp.addr();
    let mut prober = ActiveMailbox::new(1);

    let result = disp.active_request_for::<_, i32>(
        &mut prober,
        &disp_addr,
        dispatcher::Request::ExecuteFn {
            executable_fn: ExecutableFnSlot::new(|d: &mut dyn Dispatcher| {
                assert!(d.addr().is_valid());
                456_i32
            }),
        },
        TEST_TIMEOUT,
    );
    assert_eq!(result.unwrap(), 456);
}

#[test]
fn stop_simulated_dispatcher() {
    let mut disp = SimulationDispatcher::new(10);
    let disp_addr = disp.addr();
    let reactive_addr = disp.register_reactive(Box::new(rtactor::DummyBehavior::default()));
    let mut prober = ActiveMailbox::new(1);

    let result = disp.active_request_for::<_, dispatcher::Response>(
        &mut prober,
        &disp_addr,
        dispatcher::Request::StopDispatcher {},
        TEST_TIMEOUT,
    );
    assert!(matches!(result, Ok(dispatcher::Response::StopDispatcher())));

    // The reactives of a stopped dispatcher are gone.
    assert!(matches!(
        disp.replace_reactive(&reactive_addr, Box::new(rtactor::DummyBehavior::default())),
        Err(_)
    ));
    let _ = send_notification(&reactive_addr, 3u32);
}

#[test]
fn invalid_dispatcher_accessor_stops_at_once() {
    let mut accessor = dispatcher::SyncAccessor::new(&rtactor::Addr::INVALID);
    assert!(accessor.stop_dispatcher(TEST_TIMEOUT).is_ok());
    assert!(!accessor.dispatcher_addr().is_valid());
    assert!(matches!(
        accessor.register_reactive_for(rtactor::DummyBehavior::default(), Duration::ZERO),
        Err(Error::AddrUnreachable)
    ));
}
