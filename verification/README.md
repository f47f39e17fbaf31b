# lumina

The core of the Lumina language and runtime — its type checker, formatter,
editor support, cluster protocol and adapter logic — as a library whose
behaviour is stated in `requires`/`ensures` contracts and proved with Verus.

## Layout

- `src/` — the verified library.
  - `ast`, `token` — the syntax tree and the tokens of Lumina source.
  - `analyzer/` — the two analysis passes: registering entities and their
    fields, then type checking, dependency ordering of derived fields (cycle
    detection), rule and action checks; `help` holds the error hints.
  - `format`, `numbers` — the canonical source formatter and the numbers
    whose text it needs.
  - `lsp/` — hover texts and the document outline.
  - `loader`, `cli`, `install` — loading a program with its imports, the
    interactive session's commands, self-update and uninstall decisions.
  - `runtime/` — values, the entity store, runtime errors, the standard
    schema library, aggregates, the decisions of the adapters (ping,
    process, Docker, Proxmox, JSON feeds), the expression evaluator
    (`eval`), and the runtime itself (`update`): updates that recompute
    derived fields, evaluate rules and run their actions, and roll back
    entirely when any step fails; statements of a program.
  - `cluster/` — leader election, gossip and peer health, version vectors and
    the replicated state mesh, the write-ahead log, and the node that ties
    them together.
  - `assoc`, `text` — an insertion-ordered string map and text helpers.
- `app/` — ordinary Rust around the library: files, sockets, processes, the
  container runtime, HTTP, the editor protocol, and the floating-point
  computations (the library keeps numbers as IEEE-754 bits and asks for
  each step of number work through a function it is handed).
- `tests/` — tests of the library on concrete values.

## Numbers

Number literals and runtime numbers are carried as their IEEE-754 bit
patterns. Where text of a number is needed (formatting, hovers, error
messages), the caller passes a `NumberTexts` table built in `app/numbers.rs`.
The evaluator takes a function from a `NumOp` and two bit patterns to a
`NumOut` (`float_num` in `app/numbers.rs`); its contracts require only that
this function gives one result for one argument, and state every value in
terms of what it gives.
