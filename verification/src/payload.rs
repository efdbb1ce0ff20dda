//! The data carried by messages: a value of any type that can be sent to another thread.

use vstd::prelude::*;

verus! {

/// Identifier of a scheduled timeout.
pub type TimeoutId = u32;

/// Data send in Notification when a timer mature.
///
/// Use `timer.is_scheduling(notif)` to check if a timer is ready.
#[derive(Debug)]
pub struct Timeout(pub TimeoutId);

/// A value of any type that is `Send`, as carried by requests, responses and notifications.
///
/// Its content is known to the library only through `payload_timeout`.
#[verifier::external_body]
#[derive(Debug)]
pub struct Payload {
    data: Box<dyn std::any::Any + Send>,
}

/// The identifier of the `Timeout` held by a payload, as `downcast_ref::<Timeout>()` finds it.
pub uninterp spec fn payload_timeout(p: Payload) -> Option<TimeoutId>;

impl Payload {
    /// Box a value of any type (`Box::new`).
    #[verifier::external_body]
    pub fn new<T: 'static + Send>(data: T) -> (r: Payload) {
        Payload { data: Box::new(data) }
    }

    /// Box a `Timeout`: `downcast_ref::<Timeout>()` finds it back.
    #[verifier::external_body]
    pub fn from_timeout(timeout: Timeout) -> (r: Payload)
        ensures
            payload_timeout(r) == Some(timeout.0),
    {
        Payload { data: Box::new(timeout) }
    }

    /// `downcast_ref::<Timeout>()`, reduced to the identifier of the timeout.
    #[verifier::external_body]
    pub fn timeout_id(&self) -> (r: Option<TimeoutId>)
        ensures
            r == payload_timeout(*self),
    {
        self.data.downcast_ref::<Timeout>().map(|t| t.0)
    }

    /// `downcast_ref::<T>()`: a reference to the value if it has the type `T`.
    #[verifier::external_body]
    pub fn downcast_ref<T: 'static>(&self) -> (r: Option<&T>) {
        self.data.downcast_ref::<T>()
    }

    /// `downcast::<T>()`: the value if it has the type `T`, else the payload itself,
    /// given back unchanged.
    #[verifier::external_body]
    pub fn downcast<T: 'static>(self) -> (r: Result<T, Payload>)
        ensures
            r matches Err(p) ==> p == self,
    {
        match self.data.downcast::<T>() {
            Ok(b) => Ok(*b),
            Err(data) => Err(Payload { data }),
        }
    }
}

} // verus!
