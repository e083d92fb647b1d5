# codemode

Server-side tool orchestration for scripts: one script calls many downstream tools, loops and
branches, and returns one value. The results in between stay with the script.

- `src/` is the library, verified with Verus: which stubs a catalog of tools gives and the code
  that installs them, the arguments of tool calls and fetches, the budget and the deadline of
  calls and promise jobs, the batches in which deferred calls run, and the order of a run.
  `src/laws/` states what holds of these together.
- `app/` runs scripts with the `boa_engine` interpreter and asks the library what to do at every
  step: it evaluates code, runs jobs, and makes the calls of a batch on threads.
- `tests/` runs the library alone, and whole scripts with the interpreter around it.

Outside code is called from the library through declarations that Verus believes: the crates
`serde_json` (`src/json.rs`) and `boa_engine` (`src/engine.rs`), and of the standard library
`String::push` (`src/text.rs`) and `char::to_uppercase` (`src/names.rs`). Each declaration says
above it what it claims.
