# agentgateway_mcp

The verified core of a gateway that shows clients of the Model Context Protocol one server in
place of many. It names and routes what the upstream servers offer, merges their lists, runs
policies and guardrails around calls, keeps sessions, and says what is recorded of each request.

- `src/` is the library. Verus proves the contracts of its functions. A few small wrappers call
  outside crates and the standard library; what their contracts claim is believed, and said in the
  comment above each. What is promised of the library as a whole stands in public proof functions
  whose names begin with `law_`.
- `tests/` runs the library on concrete values.
- `app/` is ordinary Rust around it: wire formats, configuration files, metrics in a Prometheus
  registry, and the asynchronous tasks that talk to clients and servers.

The library makes no decision of an outside service itself. What a policy, a guardrail service or
an upstream answers comes in as an argument, and the contracts hold for every answer.
