use rtactor::{ActiveActor, Addr, Error, Message};
use std::cell::RefCell;
use std::time::Duration;
use std::vec::Vec;

#[test]
fn active_test_addr() {
    let mut addr = Addr::new();
    assert!(!addr.is_valid());

    let actor = ActiveActor::new(1);
    addr = actor.addr();
    assert!(addr.is_valid());
}

#[test]
/// Check if it's possible to send a buffer and extract it from a immutable Message reference.
fn send_buffer_without_copy() {
    let mut receiver = ActiveActor::new(1);

    enum Notification {
        Buffer(RefCell<Option<Vec<u8>>>),
    }

    rtactor::send_notification(
        &receiver.addr(),
        Notification::Buffer(RefCell::new(Some(vec![0, 3, 5, 7]))),
    )
    .unwrap();

    let msg = &receiver.wait_message().unwrap();

    match msg {
        Message::Notification(notif) => {
            let notif = notif.data.downcast_ref::<Notification>().unwrap();

            match notif {
                Notification::Buffer(cell) => {
                    let v = cell.borrow_mut().take().unwrap();
                    assert_eq!(v, vec!(0, 3, 5, 7))
                }
            }
        }
        _ => panic!(),
    }
}

#[test]
fn request_to_invalid_and_full_mailbox() {
    let mut requester = ActiveActor::new(1);

    assert!(matches!(
        requester.request_for::<_, u32>(&Addr::INVALID, 0x1234, Duration::from_secs(5)),
        Err(Error::AddrUnreachable)
    ));
    let requested_full_queue = ActiveActor::new(1);
    rtactor::send_notification(&requested_full_queue.addr(), 23).unwrap();

    assert!(matches!(
        requester.request_for::<_, u32>(&requested_full_queue.addr(), 0x1234, Duration::ZERO),
        Err(Error::QueueFull)
    ));
}

#[test]
fn notification_to_invalid_and_full_mailbox() {
    assert!(matches!(
        rtactor::send_notification(&Addr::new(), 1u8),
        Err(Error::AddrUnreachable)
    ));
    let full = ActiveActor::new(1);
    rtactor::send_notification(&full.addr(), 1u8).unwrap();
    assert!(matches!(
        rtactor::send_notification(&full.addr(), 2u8),
        Err(Error::QueueFull)
    ));
}

#[test]
fn notification_to_dropped_mailbox_is_unreachable() {
    let addr = ActiveActor::new(1).addr();
    assert!(matches!(
        rtactor::send_notification(&addr, 1u8),
        Err(Error::AddrUnreachable)
    ));
}

#[test]
fn try_get_message_without_message() {
    let mut mailbox = ActiveActor::new(1);
    assert!(matches!(mailbox.try_get_message(), Err(Error::NoMessage)));
    assert!(matches!(
        mailbox.wait_message_for(Duration::from_millis(1)),
        Err(Error::Timeout)
    ));
}

#[test]
fn request_ids_follow_each_other() {
    let mut mailbox = ActiveActor::new(1);
    assert_eq!(mailbox.generate_request_id(), 1);
    assert_eq!(mailbox.generate_request_id(), 2);
}

#[test]
fn responds_answers_the_request() {
    let mut requester = ActiveActor::new(1);
    let mut requested = ActiveActor::new(1);
    rtactor::send_notification(&requested.addr(), ()).unwrap();
    // the request cannot be queued: an error response comes back
    assert!(matches!(
        requester.request_for::<_, i32>(&requested.addr(), -123i32, Duration::ZERO),
        Err(Error::QueueFull)
    ));
    let _ = requested.try_get_message().unwrap();

    // a request answered before the wait: the response is found in the queue
    let requester_addr = requester.addr();
    rtactor::send_notification(&requester_addr, 5u8).unwrap();
    let msg = requester.wait_message().unwrap();
    assert!(matches!(msg, Message::Notification(_)));
}

#[test]
fn addresses_compare_by_actor() {
    let a = ActiveActor::new(1);
    let b = ActiveActor::new(1);
    assert!(a.addr() == a.addr());
    assert!(a.addr() != b.addr());
    assert!(a.addr().clone() == a.addr());
    assert!(Addr::new() == Addr::default());
    assert!(a.addr() != Addr::new());
}
