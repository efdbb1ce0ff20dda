//! A framework to implement the reactive pattern on real-time systems.
//!
//! Actors exchange requests, responses and notifications through their addresses.
//! Reactive actors are called by a dispatcher with the messages of its queue; active
//! mailboxes are queues that their owner empties, async mailboxes queues that their owner
//! awaits. A `SimulationDispatcher` runs reactive actors in the thread of a test with a
//! simulated time. The profiling aggregator collects the metrics of profiled actors.

pub mod active;
pub mod actor;
pub mod async_actor;
pub mod channel;
pub mod context;
pub mod dispatcher;
pub mod instant;
pub mod mpsc_dispatcher;
pub mod name_order;
pub mod payload;
pub mod profiled_actor;
pub mod profiling_aggregator;
pub mod reactive;
pub mod simulation;
pub mod std_time;
pub mod timer;

pub use active::ActiveActor;
pub use active::ActiveMailbox;
pub use active::SyncAccessor;
pub use async_actor::AsyncMailbox;
pub use actor::send_notification;
pub use actor::Addr;
pub use actor::Error;
pub use actor::ErrorStatus;
pub use actor::Message;
pub use actor::Notification;
pub use actor::Request;
pub use actor::RequestId;
pub use actor::Response;
pub use context::ProcessContext;
pub use instant::Instant;
pub use mpsc_dispatcher::MpscDispatcher;
pub use payload::{Payload, Timeout};
pub use reactive::Behavior;
pub use reactive::DummyBehavior;
pub use timer::Timer;
