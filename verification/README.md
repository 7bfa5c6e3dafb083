# pipeline

Interceptor pipelines and strategic task flows, verified with Verus.

- `src/aspect.rs`: the aspect pipeline. Items run outermost first in the order
  in which they were added (`Z1(Z2(Z3(next)))(context)`), each after a
  cancellation check of the shared context.
- `src/interceptor.rs`: the interceptor pipeline, whose runs work on fresh
  copies of the interceptors.
- `src/tasks/`: tasks under a strategy (retries with delays, caught errors,
  rollback), task flows and sequences, fallback chains and parallel branches.
  A run of a flow or of a fallback chain is a state machine
  (`tasks::run::FlowRun`, `tasks::fallback::FallbackRun`): it says what to do
  next, the caller does it (awaiting, sleeping) and reports back.
- `app/`: the asynchronous traits that users implement and the runners that
  drive the state machines, with `async-trait`, `tokio` and `futures`.
