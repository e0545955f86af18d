# bella

The verified core of Bella, a local-first assistant daemon, written in Verus.

- `src/` — the library. Its functions are verified, apart from a few small trusted wrappers
  (marked `external_body`) around calls into std, tokio, uuid and getrandom:
  - `subsystem`, `message`: subsystem addressing and the envelope/payload contract;
  - `bus`: the message bus — one bounded tokio inbox per subsystem, routing and backpressure rules;
  - `capability`, `grant`, `system`: the permission system — capability matching, grants with expiry,
    the enforcement point and its append-only audit trail; `permission_laws` holds its laws;
  - `types`, `store`: the episodic memory store — a timeline ordered by creation time with recall,
    interaction history, substring search and lookup by id; `memory_laws` holds its laws;
  - `supervisor`: the restart policy for supervised subsystems;
  - `demo`: the reference Voice and Context subsystems' decisions;
  - `clock`, `ids`, `text`: the wall clock, UUID values, and character-level string helpers.
- `app/` — the `bellad` daemon: async plumbing (shared handles, the supervisor task, the subsystem
  tasks), SQLite persistence of the memory store, serializable copies of the message types, logging.
- `tests/` — tests of the library.
