# agents_framework

Agent and workflow abstractions with their logic verified by Verus.

- `src/` is the verified library:
  - `agents_traits`: chat messages, responses and their streaming updates,
    token usage, in-memory threads, and the request handling of the
    thread actor;
  - `agents_ai`: chat-client metadata, message stores, chat-client agent
    threads, and how an agent assembles the messages it sends;
  - `agents_workflows`: edges and message routing, the workflow builder and
    its validation, built workflows and their ownership by one run, scoped
    state with queued updates, events, run statuses and the decisions taken
    between super steps;
  - `external.rs` declares the outside types the library carries
    (`serde_json::Value`, `uuid::Uuid`, `dashmap::DashMap`) and holds the
    trusted wrappers around the outside calls it makes.
- `app/` holds what runs around the library: the asynchronous agent,
  thread, chat-client, executor and context interfaces, the actor-backed
  thread, runs and the loop of super steps, and the JSON forms of the
  library's types.
- `tests/` exercises the library on concrete values.
