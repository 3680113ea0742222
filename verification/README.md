# suxel

A durable execution runtime for tool-using agents. An agent's work is a *run*: it has an
id, a state machine and a log of events, and it survives the crash of the process that
advances it.

- Durable steps: a side effect that completed is not done again.
- Workers and a queue: a run that a crashed worker held is delivered again.
- Signals, approvals and timers: a run parks for as long as it takes.
- Child runs with joins of all, any or a quorum of them.
- Leases on resources, budgets, artifacts, and a log that a reader can resume anywhere.
- Sandboxes that are created once, attached to again after a crash, and reaped.

## Layout

`src/` is the library. It is written in Verus: each function carries a contract over a
mathematical model of the store, and the laws that hold of the runtime as a whole are
proof functions.

| Module | What it holds |
|---|---|
| `run`, `event`, `signal`, `step`, `resource`, `artifact`, `budget`, `ids`, `time`, `error` | the values |
| `json`, `wire`, `document`, `spelling`, `money`, `digits`, `text`, `codec` | documents and texts |
| `store` | the model of the store and the traits that storage offers |
| `mem` | storage in memory |
| `change`, `decide` | decisions as lists of changes |
| `driver` | the context in which a driver advances a run |
| `engine`, `look`, `join`, `cancel` | the engine |
| `laws`, `progress` | what holds of the whole |
| `sandbox`, `e2b`, `bridge`, `envelope`, `computer` | sandboxes and what runs in them |
| `sql_encoding` | rows of tables |
| `api` | what each request is answered |
| `sweet` | turns of an agent framework |
| `testkit` | mock drivers |

`app/` is ordinary Rust around it: the HTTP server, the stores in SQLite and Postgres, the
clients, the loop of a worker. `tests/` runs the library.
