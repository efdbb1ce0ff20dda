# rtactor

An actor framework for real-time constrained use cases, verified with Verus.

Reactive actors are called by a dispatcher with the messages of its queue; active and
async mailboxes are queues that their owner empties; a `SimulationDispatcher` runs
reactive actors in a single thread with a simulated time, for tests. A profiling
aggregator collects the metrics of profiled actors when a snapshot is asked for.

Layout:

* `src/`: the verified library. Each public function states what it returns and what it
  changes; the laws that relate several functions are public proof functions whose names
  begin with `law_`. The queues are shared with other threads and are not modelled;
  ghost records say what the library handed to them and took from them: the messages a
  mailbox took (`taken`), the requests sent (`requests`), the timeouts a context queued
  (`queued`) and the messages a dispatcher handed to its reactives (`handed`).
* `app/`: the parts that Verus does not check: the thread that runs a dispatcher
  (`spawn_dispatcher`), the macros that define synchronous and async accessors, the waits
  of async mailboxes, the floating-point metrics, the behavior that drives the profiling
  aggregator's state machine, and the mockall mocks.
* `tests/`: the tests of the library.
