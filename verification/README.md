# ktesio-engine

The decision core of an engine that supervises agent processes: registering and removing
instances, starting, stopping, pausing and resuming them, restarting them after a crash,
taking over what an earlier engine left running, metering what they use, holding that
against their budgets, and keeping their configuration, logs and events.

The core does no I/O. An operation that has to read, write or signal is a run that asks for
one action at a time and is handed the answer; one that only computes on what was read takes
the outcome of the reading as an argument. Every function of the core states in its contract
what it returns, and `law_` proof functions state what holds across them.

- `src/` is the verified core.
  - `start`, `stop`, `suspend`, `send`, `poll`, `adopt`, `removal`, `budget`, `drain`: the
    supervisor's operations, over the table of held processes in `supervisor`.
  - `register`, `remove`, `fleet`, `registry`, `instance`, `name`, `capability`: who is
    registered.
  - `config`, `effective`, `dotted`, `toml_table`, `writable`: the layered configuration.
  - `jsonl`, `logs`, `resync`, `event`, `usage`, `metering`: what is written down and read back.
  - `lifecycle`, `restart`, `duration`, `secret`, `paths`, `error`, `text`, `engine`: the rest.
- `app/` carries out what the core asks for: files, the runtime, the forms on the wire. The
  state store, the process backend, the adapters and the price rules are an embedder's, behind
  the trait `host::Host`.
- `tests/` runs the core over stores, processes and files that are held in memory.
