# joerl

An Erlang-style actor toolkit whose logic is specified and proved with Verus.

- `src/` is the verified library. Each module states its behaviour in
  `requires`/`ensures` contracts over mathematical models (`Seq`, `Map`,
  `Set`) and proves the laws that span functions as public proof functions
  (`lemma_*`): links are mutual, a terminated actor notifies exactly its
  links and watchers, envelopes read back what was written, a registered
  name resolves back, restart intensity is respected, children to be
  restarted are stopped first, a cancelled timer is never delivered, a
  live actor is reachable on its own node, sampling records the
  configured share of events, and more.
  - `pid`, `message`, `error`: identifiers, exit reasons, signals, errors.
  - `actor`: the actor context and the default handling of signals.
  - `system`: the actor table, spawning, links, monitors, routing,
    termination, listen addresses.
  - `registry`, `scheduler`, `supervisor`: names, timers, restart plans.
  - `serialization`, `distributed`: envelopes, payloads between nodes,
    frames, the directory of connected nodes.
  - `epmd`: the node port mapper's protocol and table.
  - `health`, `telemetry`, `gen_server`: health checks, sampling and spans,
    replies to calls.
- `app/` runs it: tokio tasks and mailboxes, TCP for the port mapper and
  between nodes, bincode encodings, generic servers and supervisors as
  actors, metrics emission.
- `tests/` exercises the library from outside.
