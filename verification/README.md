# dbgscope

Decisions of a Windows debug engine session and of a process heap walk, written in Verus.

The library never calls the engine. Each operation is a state machine, or a function of the
engine's replies: it says what to ask next, takes the reply, and ends with a result or an error.
Every function carries a contract that Verus proves.

## Layout

- `src/dbgeng/` is the engine session: running a command and waiting for it, opening, sharing and
  ending a session, breakpoints, modules, registers, scopes, stacks, memory, and the text the
  engine hands over.
- `src/heap/` is the walk of a process's heaps: validating the target, finding the layout,
  discovering the roots, planning and keeping a snapshot, and the questions asked of one.
- `src/text.rs` and `src/bytes.rs` hold the texts and the little-endian numbers both need.
- `app/` runs the machines: `app/engine.rs` and its siblings drive them over the calls of
  `app/port.rs`, and `app/com.rs` makes those calls through COM.
- `tests/` runs the library on concrete values.

## What is trusted

Five functions of the standard library are used through contracts that are stated and not proved:
`String::push`, `String::from_utf8_lossy`, `String::from_utf16_lossy`, `<[T]>::sort_by_key` and the
debug text of a `Duration`. The comment above each says what is claimed of it.
