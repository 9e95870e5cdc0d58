# FlowPulse

Turns pulse-sensor readings received over MQTT into a per-second timeseries
of water flow rates (L/min), filling gaps with zero flow and publishing each
second at most once.

- `src/` is the library, with its contracts and proofs: flow rates (held exactly, as
  the integers they are computed from), gap filling and its laws, the
  service state and duplicate filtering, the decisions of the MQTT run loop,
  configuration parsing and validation, clocks, and the test helpers (a log
  recorder, a simulated MQTT client and an in-memory broker, which deliver
  messages over tokio channels).
- `app/` is the program around it: environment variables, logging, JSON,
  the rumqttc client, tokio and the async run loop that performs the actions
  the library decides, and the locks that let several tasks share one
  simulated client or clock.
- `tests/` exercises the library on concrete values.
