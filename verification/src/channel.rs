//! Contracts of the bounded queues of `std::sync::mpsc` that carry the messages.
//!
//! A queue is shared by every holder of a sender: what a receive gives back, and
//! whether a send finds room, depends on what the other holders did. Only what holds
//! of every outcome is stated, and that a queue whose receiving end keeps a sender of its
//! own is never disconnected.

use crate::actor::Message;
use crate::reactive::MessageAndDstId;
use std::sync::mpsc::{Receiver, SyncSender};
use std::time::Duration;
use vstd::prelude::*;

verus! {

/// The sending end of the queue of an active mailbox.
///
/// The queue carries messages, which carry addresses, which carry senders: a type that
/// holds itself through a sender cannot be declared as an outside type, so the sender is
/// held here, in a private field.
#[verifier::external_body]
#[derive(Debug)]
pub struct MessageSender {
    tx: SyncSender<Message>,
}

/// The sending end of the queue of a dispatcher, held as `MessageSender` is.
#[verifier::external_body]
#[derive(Debug)]
pub struct RoutedSender {
    tx: SyncSender<MessageAndDstId>,
}

/// The queue of an active mailbox: its receiving end, held together with a sender of
/// its own, so that the queue cannot lose all its senders while this value lives.
#[verifier::external_body]
#[derive(Debug)]
pub struct MailboxQueue {
    tx: SyncSender<Message>,
    rx: Receiver<Message>,
}

/// The queue of a dispatcher, held as `MailboxQueue` is.
#[verifier::external_body]
#[derive(Debug)]
pub struct DispatcherQueue {
    tx: SyncSender<MessageAndDstId>,
    rx: Receiver<MessageAndDstId>,
}

/// Why a value could not be queued; the value is given back.
pub enum SendFailure<T> {
    /// The queue is full.
    Full(T),
    /// Every receiver is gone.
    Disconnected(T),
}

/// Why no value was received.
#[derive(Debug)]
pub enum RecvFailure {
    /// The queue is empty.
    Empty,
    /// Every sender is gone and the queue is empty.
    Disconnected,
    /// Nothing arrived in time.
    Timeout,
}

/// `std::sync::mpsc::sync_channel(bound)` for the queue of a mailbox.
#[verifier::external_body]
pub fn mailbox_channel(bound: usize) -> (r: MailboxQueue) {
    let (tx, rx) = std::sync::mpsc::sync_channel(bound);
    MailboxQueue { tx, rx }
}

/// `std::sync::mpsc::sync_channel(bound)` for the queue of a dispatcher.
#[verifier::external_body]
pub fn dispatcher_channel(bound: usize) -> (r: DispatcherQueue) {
    let (tx, rx) = std::sync::mpsc::sync_channel(bound);
    DispatcherQueue { tx, rx }
}

impl MessageSender {
    /// `SyncSender::clone`: one more sender to the same queue.
    #[verifier::external_body]
    pub fn duplicate(&self) -> (r: MessageSender) {
        MessageSender { tx: self.tx.clone() }
    }

    /// `SyncSender::try_send`: queue the message without blocking; on failure the
    /// message is given back unchanged.
    #[verifier::external_body]
    pub fn try_send(&self, value: Message) -> (r: Result<(), SendFailure<Message>>)
        ensures
            r matches Err(SendFailure::Full(v)) ==> v == value,
            r matches Err(SendFailure::Disconnected(v)) ==> v == value,
    {
        match self.tx.try_send(value) {
            Ok(()) => Ok(()),
            Err(std::sync::mpsc::TrySendError::Full(v)) => Err(SendFailure::Full(v)),
            Err(std::sync::mpsc::TrySendError::Disconnected(v)) => Err(SendFailure::Disconnected(v)),
        }
    }
}

impl RoutedSender {
    /// `SyncSender::clone`: one more sender to the same queue.
    #[verifier::external_body]
    pub fn duplicate(&self) -> (r: RoutedSender) {
        RoutedSender { tx: self.tx.clone() }
    }

    /// `SyncSender::try_send`: queue the message without blocking; on failure the
    /// message is given back unchanged.
    #[verifier::external_body]
    pub fn try_send(&self, value: MessageAndDstId) -> (r: Result<(), SendFailure<MessageAndDstId>>)
        ensures
            r matches Err(SendFailure::Full(v)) ==> v == value,
            r matches Err(SendFailure::Disconnected(v)) ==> v == value,
    {
        match self.tx.try_send(value) {
            Ok(()) => Ok(()),
            Err(std::sync::mpsc::TrySendError::Full(v)) => Err(SendFailure::Full(v)),
            Err(std::sync::mpsc::TrySendError::Disconnected(v)) => Err(SendFailure::Disconnected(v)),
        }
    }
}

impl MailboxQueue {
    /// `SyncSender::clone`: one more sender to this queue.
    #[verifier::external_body]
    pub fn sender(&self) -> (r: MessageSender) {
        MessageSender { tx: self.tx.clone() }
    }

    /// `Receiver::try_recv`: take the oldest message without blocking. The queue keeps a
    /// sender of its own, so it is never disconnected: a failure is an empty queue.
    #[verifier::external_body]
    pub fn try_recv(&self) -> (r: Result<Message, RecvFailure>)
        ensures
            r matches Err(e) ==> e is Empty,
    {
        match self.rx.try_recv() {
            Ok(v) => Ok(v),
            Err(std::sync::mpsc::TryRecvError::Empty) => Err(RecvFailure::Empty),
            Err(std::sync::mpsc::TryRecvError::Disconnected) => Err(RecvFailure::Disconnected),
        }
    }

    /// `Receiver::recv_timeout`: take the oldest message, waiting at most `timeout`; a
    /// failure is a timeout, for the queue keeps a sender of its own.
    #[verifier::external_body]
    pub fn recv_timeout(&self, timeout: Duration) -> (r: Result<Message, RecvFailure>)
        ensures
            r matches Err(e) ==> e is Timeout,
    {
        match self.rx.recv_timeout(timeout) {
            Ok(v) => Ok(v),
            Err(std::sync::mpsc::RecvTimeoutError::Timeout) => Err(RecvFailure::Timeout),
            Err(std::sync::mpsc::RecvTimeoutError::Disconnected) => Err(RecvFailure::Disconnected),
        }
    }

    /// `Receiver::recv`: take the oldest message, waiting as long as needed; it fails
    /// only on a queue without senders, which this one never is.
    #[verifier::external_body]
    pub fn recv(&self) -> (r: Result<Message, RecvFailure>)
        ensures
            r is Ok,
    {
        match self.rx.recv() {
            Ok(v) => Ok(v),
            Err(_) => Err(RecvFailure::Disconnected),
        }
    }
}

impl DispatcherQueue {
    /// `SyncSender::clone`: one more sender to this queue.
    #[verifier::external_body]
    pub fn sender(&self) -> (r: RoutedSender) {
        RoutedSender { tx: self.tx.clone() }
    }

    /// `Receiver::try_recv`: take the oldest message without blocking; a failure is an
    /// empty queue, for the queue keeps a sender of its own.
    #[verifier::external_body]
    pub fn try_recv(&self) -> (r: Result<MessageAndDstId, RecvFailure>)
        ensures
            r matches Err(e) ==> e is Empty,
    {
        match self.rx.try_recv() {
            Ok(v) => Ok(v),
            Err(std::sync::mpsc::TryRecvError::Empty) => Err(RecvFailure::Empty),
            Err(std::sync::mpsc::TryRecvError::Disconnected) => Err(RecvFailure::Disconnected),
        }
    }

    /// `Receiver::recv_timeout`: take the oldest message, waiting at most `timeout`; a
    /// failure is a timeout, for the queue keeps a sender of its own.
    #[verifier::external_body]
    pub fn recv_timeout(&self, timeout: Duration) -> (r: Result<MessageAndDstId, RecvFailure>)
        ensures
            r matches Err(e) ==> e is Timeout,
    {
        match self.rx.recv_timeout(timeout) {
            Ok(v) => Ok(v),
            Err(std::sync::mpsc::RecvTimeoutError::Timeout) => Err(RecvFailure::Timeout),
            Err(std::sync::mpsc::RecvTimeoutError::Disconnected) => Err(RecvFailure::Disconnected),
        }
    }
}

} // verus!
