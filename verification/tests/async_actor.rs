use rtactor::active::{classify_reply, ReplyAction};
use rtactor::{Addr, AsyncMailbox, Error, ErrorStatus, Message, Payload, Response};
use std::cell::RefCell;

#[test]
fn async_actor_test_addr() {
    let mut addr = Addr::new();
    assert!(!addr.is_valid());

    let actor = AsyncMailbox::new(1);
    addr = actor.addr();
    assert!(addr.is_valid());
}

#[test]
fn generate_request_id() {
    let mut actor = AsyncMailbox::new(1);

    assert_eq!(actor.generate_request_id(), 1);

    assert_eq!(actor.generate_request_id(), 2);
}

#[test]
fn async_send_buffer_without_copy() {
    let mut receiver = AsyncMailbox::new(1);

    enum Notification {
        Buffer(RefCell<Option<Vec<u8>>>),
    }

    rtactor::send_notification(
        &receiver.addr(),
        Notification::Buffer(RefCell::new(Some(vec![0, 3, 5, 7]))),
    )
    .unwrap();

    // The queue holds one message.
    assert!(matches!(
        rtactor::send_notification(&receiver.addr(), 1u8),
        Err(Error::QueueFull)
    ));

    let msg = &receiver.try_get_message().unwrap();
    match msg {
        Message::Notification(notif) => {
            let notif = notif.data.downcast_ref::<Notification>().unwrap();
            match notif {
                Notification::Buffer(cell) => {
                    let v = cell.borrow_mut().take().unwrap();
                    assert_eq!(v, vec!(0, 3, 5, 7))
                }
            }
        }
        _ => panic!(),
    }
    assert!(matches!(receiver.try_get_message(), Err(Error::NoMessage)));
}

#[test]
fn async_request_and_response() {
    let mut requester = AsyncMailbox::new(2);
    let mut responder = AsyncMailbox::new(2);

    let id = requester.send_request(&responder.addr(), 23u32);
    assert_eq!(id, 1);

    let request = match responder.try_get_message().unwrap() {
        Message::Request(request) => request,
        _ => panic!(),
    };
    assert_eq!(*request.data.downcast_ref::<u32>().unwrap(), 23);
    responder.responds(request, 123u64).unwrap();

    let reply = requester.try_get_message().unwrap();
    match classify_reply::<u64>(id, reply) {
        ReplyAction::Return(Ok(v)) => assert_eq!(v, 123),
        _ => panic!(),
    }
}

#[test]
fn messages_put_aside_come_back_last_first() {
    let mut mailbox = AsyncMailbox::new(1);
    mailbox.put_aside(Message::new());
    mailbox.put_aside(rtactor::Message::Notification(rtactor::Notification {
        data: rtactor::Payload::new(7u8),
    }));
    match mailbox.try_get_message().unwrap() {
        Message::Notification(n) => assert_eq!(*n.data.downcast_ref::<u8>().unwrap(), 7),
        _ => panic!(),
    }
    assert!(matches!(mailbox.try_get_message(), Ok(Message::Notification(_))));
    assert!(mailbox.take_pending().is_none());
}

#[test]
fn classify_reply_cases() {
    let ok = |id: u32, data: Payload| Message::Response(Response { request_id: id, result: Ok(data) });

    // The awaited response of the right type ends the request.
    assert!(matches!(
        classify_reply::<u32>(5, ok(5, Payload::new(9u32))),
        ReplyAction::Return(Ok(9))
    ));
    // A response of the right type to another request is dropped.
    assert!(matches!(classify_reply::<u32>(5, ok(4, Payload::new(9u32))), ReplyAction::Drop));
    // A response of another type is put aside, unchanged.
    match classify_reply::<u32>(5, ok(5, Payload::new(9u8))) {
        ReplyAction::Keep(Message::Response(r)) => {
            assert_eq!(r.request_id, 5);
            assert_eq!(*r.result.unwrap().downcast_ref::<u8>().unwrap(), 9);
        }
        _ => panic!(),
    }
    // An error response ends the request with its error, whatever its identifier.
    let err = Message::Response(Response {
        request_id: 8,
        result: Err(ErrorStatus {
            error: Error::QueueFull,
            request_data: Payload::new(()),
        }),
    });
    assert!(matches!(classify_reply::<u32>(5, err), ReplyAction::Return(Err(Error::QueueFull))));
    // Any other message is put aside.
    assert!(matches!(
        classify_reply::<u32>(5, Message::new()),
        ReplyAction::Keep(Message::Notification(_))
    ));
}
