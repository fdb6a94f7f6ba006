# Ananse

Ananse is a WebAssembly-native virtual machine whose runs are laid out for a
register-shaped AIR over the Goldilocks field. A module is validated, its
defined functions are lifted to a static register schedule (operand stack,
locals and globals as one flat register file), and the schedule drives an
interpreter that emits one record per executed instruction. The records fill
the execution trace and its lookup and permutation columns.

The library is written in Verus: its functions carry `requires`/`ensures`
contracts that Verus proves.

## Layout

- `src/decoder/`: the module image, the import allowlist, instruction and
  opcode tables, and the decoder's errors.
- `src/lift/`: the lift to the static register schedule, with a model of the
  lifter's state (`model.rs`) and the laws it keeps (`resolved.rs`: every
  branch target is a program point or the end of the body; a body that ends
  with `end` returns from its last point).
- `src/executor/`: the schedule-driven interpreter. `interpreter/run.rs`
  describes one activation as a sequence of states, calls to defined
  functions and calls into the host included (`eval_run`);
  `Interpreter::eval`, `execute` and `Runtime::call` are proved to agree with
  that description wherever it settles. A host (`executor/host.rs`) is
  deterministic: its answer, its next state and the memory it leaves are
  functions of its state, the import, the arguments and the memory.
- `src/wasi.rs`: the deterministic `wasi_snapshot_preview1` host
  (`fd_write`, `proc_exit`).
- `src/trace/`, `src/air/`: the trace layout, its filling from records, the
  boundary, lookup and permutation tables over the Goldilocks field, and the
  residuals of the address-binding, data-movement, numeric and control-flow
  lookup constraints.
- `src/cli/`: the texts the command line prints.
- `app/`: the command line, and the walk over the module's payloads with
  `wasmparser` that reads its sections.
- `tests/`: the library's tests.

Calls into `wasmparser`, `p3-field` and `p3-goldilocks` stand behind small
trusted wrappers whose contracts state what those crates document.
