//! The example of the top-level documentation: an acceleration broadcaster tested in a
//! simulation, with a fake CAN controller.
use std::{cell::RefCell, time::Duration};

use rtactor as rt;

#[derive(Debug)]
pub enum CanError {
    SendFailed,
    InvalidId,
    InvalidLength,
}

pub enum CanRequest {
    SendMessage { id: u32, length: u8, data: [i16; 4] },
}

pub enum CanResponse {
    SendMessage(Result<(), CanError>),
}

pub enum BroadcasterRequest {
    Start { can_controller_addr: rt::Addr },
    Stop {},
}

pub enum BroadcasterResponse {
    Start(),
    Stop(),
}

pub enum BroadcasterNotification {
    AccelerationSample { acceleration: [i16; 3] },
}

/// Synchronous access to a broadcaster run by a simulation.
pub struct BroadcasterSimSyncAccessor<'a> {
    active_actor: rt::ActiveMailbox,
    target_addr: rt::Addr,
    disp: &'a std::cell::RefCell<rt::simulation::SimulationDispatcher>,
}

impl<'a> BroadcasterSimSyncAccessor<'a> {
    pub fn new(
        disp: &'a std::cell::RefCell<rt::simulation::SimulationDispatcher>,
        target_addr: &rt::Addr,
    ) -> Self {
        Self {
            active_actor: rt::ActiveMailbox::new(1),
            target_addr: target_addr.clone(),
            disp,
        }
    }

    fn request(&mut self, request: BroadcasterRequest, duration: Duration) -> Result<BroadcasterResponse, rt::Error> {
        let addr = self.target_addr.clone();
        self.disp
            .borrow_mut()
            .active_request_for(&mut self.active_actor, &addr, request, duration)
    }

    pub fn start(&mut self, can_controller_addr: rt::Addr, duration: Duration) -> Result<(), rt::Error> {
        match self.request(BroadcasterRequest::Start { can_controller_addr }, duration)? {
            BroadcasterResponse::Start() => Ok(()),
            _ => Err(rt::Error::DowncastFailed),
        }
    }

    pub fn stop(&mut self, duration: Duration) -> Result<(), rt::Error> {
        match self.request(BroadcasterRequest::Stop {}, duration)? {
            BroadcasterResponse::Stop() => Ok(()),
            _ => Err(rt::Error::DowncastFailed),
        }
    }

    pub fn acceleration_sample(&mut self, acceleration: [i16; 3]) -> Result<(), rt::Error> {
        let addr = self.target_addr.clone();
        self.active_actor
            .send_notification(&addr, BroadcasterNotification::AccelerationSample { acceleration })
    }
}

enum State {
    Stopped,
    WaitSamples,
    SendingCanMessage { request_id: rt::RequestId },
}

pub struct Broadcaster {
    can_controller_addr: rt::Addr,
    sample_count: u32,
    acceleration_sum: [i32; 3],
    state: State,
    timer: rt::Timer,
}

const BROADCAST_PERIOD: Duration = Duration::from_millis(500);
const CAN_ACCELERATION_ID: u32 = 0x1000;

impl Broadcaster {
    pub fn new() -> Broadcaster {
        Broadcaster {
            can_controller_addr: rt::Addr::INVALID,
            sample_count: 0,
            acceleration_sum: [0; 3],
            state: State::Stopped,
            timer: rt::Timer::new(),
        }
    }

    fn reset_sum(&mut self) {
        for a in &mut self.acceleration_sum {
            *a = 0;
        }
        self.sample_count = 0;
    }
}

impl rt::Behavior for Broadcaster {
    fn process_message(&mut self, context: &mut rt::ProcessContext, msg: &rt::Message) {
        match msg {
            rt::Message::Request(request) => {
                if let Some(req_data) = request.data.downcast_ref() {
                    self.process_broadcaster_request(context, request, req_data);
                }
            }
            rt::Message::Response(response) => {
                if let Ok(resp_data) = response.result.as_ref() {
                    if let Some(resp_data) = resp_data.downcast_ref() {
                        self.process_can_controller_response(response, resp_data);
                    }
                }
            }
            rt::Message::Notification(notification) => {
                if let Some(notif_data) = notification.data.downcast_ref() {
                    self.process_accelerometer_notification(notif_data);
                } else if self.timer.is_scheduling(notification) {
                    self.process_timer_elapsed(context);
                }
            }
        }
    }
}

impl Broadcaster {
    fn process_broadcaster_request(
        &mut self,
        context: &mut rt::ProcessContext,
        request: &rt::Request,
        data: &BroadcasterRequest,
    ) {
        match data {
            BroadcasterRequest::Start {
                can_controller_addr,
            } => {
                if let State::Stopped = self.state {
                    self.can_controller_addr = can_controller_addr.clone();
                    context.schedule_for(&mut self.timer, BROADCAST_PERIOD);
                    self.state = State::WaitSamples;
                    self.reset_sum();
                }
                context.send_response(request, BroadcasterResponse::Start());
            }
            BroadcasterRequest::Stop {} => {
                if let State::Stopped = self.state {
                } else {
                    context.unschedule(&mut self.timer);
                    self.state = State::Stopped;
                    self.reset_sum();
                }
                context.send_response(request, BroadcasterResponse::Stop());
            }
        }
    }

    fn process_accelerometer_notification(
        &mut self,
        data: &BroadcasterNotification,
    ) {
        let BroadcasterNotification::AccelerationSample { acceleration } = data;
        for (i, a) in acceleration.iter().enumerate() {
            self.acceleration_sum[i] += *a as i32;
        }
        self.sample_count += 1;
    }

    fn process_timer_elapsed(&mut self, context: &mut rt::ProcessContext) {
        if let State::WaitSamples = self.state {
            if self.sample_count > 0 {
                let mut data = [0i16; 4];
                for (i, a_sum) in self.acceleration_sum.into_iter().enumerate() {
                    let a = a_sum / (self.sample_count as i32);

                    data[i] = a as i16;
                }

                let request_id = context.send_request(
                    &self.can_controller_addr,
                    CanRequest::SendMessage {
                        id: CAN_ACCELERATION_ID,
                        length: 3,
                        data,
                    },
                );

                self.state = State::SendingCanMessage { request_id };
            }
        }

        self.reset_sum();
        context.schedule_for(&mut self.timer, BROADCAST_PERIOD);
    }

    fn process_can_controller_response(
        &mut self,
        response: &rt::Response,
        data: &CanResponse,
    ) {
        let CanResponse::SendMessage(result) = data;

        if let State::SendingCanMessage { request_id } = self.state {
            if response.id_eq(request_id) {
                if let Err(error) = result {
                    println!("can error: {error:?}");
                }
                self.state = State::WaitSamples;
            }
        }
    }
}

#[test]
fn test_broadcaster_simulated() {
    const ACCELEROMETER_T_SAMPLE: Duration = Duration::from_millis(50);

    let disp = RefCell::new(rt::simulation::SimulationDispatcher::new(10));

    let broadcaster_addr = disp
        .borrow_mut()
        .register_reactive(Box::new(Broadcaster::new()));

    let mut broadcaster_accessor =
        BroadcasterSimSyncAccessor::new(&disp, &broadcaster_addr);

    let mut fake_can = rt::ActiveMailbox::new(10);

    let begin = disp.borrow_mut().now();

    broadcaster_accessor
        .start(fake_can.addr(), Duration::ZERO)
        .unwrap();

    disp.borrow_mut().process_for(ACCELEROMETER_T_SAMPLE / 2);

    for i in 0..3 {
        for j in 0..10 {
            println!(
                "i={i}, j={j} {:?}",
                disp.borrow_mut().now().saturating_sub(&begin)
            );

            broadcaster_accessor
                .acceleration_sample([-1000, 2000, 3000])
                .unwrap();
            disp.borrow_mut().process_for(ACCELEROMETER_T_SAMPLE);
        }

        let msg = disp
            .borrow_mut()
            .active_wait_message_for(&mut fake_can, Duration::ZERO)
            .unwrap();

        if let rt::Message::Request(request) = msg {
            if let Some(CanRequest::SendMessage { id, length, data }) =
                request.data.downcast_ref()
            {
                assert_eq!(*id, 0x1000);
                assert_eq!(*length, 3);
                assert_eq!(data[0], -1000);
                assert_eq!(data[1], 2000);
                assert_eq!(data[2], 3000);
            } else {
                panic!();
            }

            fake_can
                .responds(request, CanResponse::SendMessage(Ok(())))
                .unwrap();
        } else {
            panic!();
        }
    }

    broadcaster_accessor.stop(Duration::ZERO).unwrap();
}
