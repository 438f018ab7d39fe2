# typescript

Parts of a TypeScript compiler and virtual machine, written in Verus:
the virtual machine's instruction set and its interpreter, the lexer,
parser and code generator, the just-in-time optimizer's passes, the
collector's steps over object ids and the bookkeeping of the allocators,
each with a contract that Verus proves. The type checker, the builtin
library, the module loader and the driver that runs a script are not
part of it.

- `src/` is the verified library.
  - `memory`: the size-class memory pool, the buddy allocator, the object
    pool and the allocator factory. They keep the books on addresses; the
    bytes themselves are obtained and returned by the caller.
  - `gc`: object headers, collection phases, write barriers (card table
    and remembered-set batching), pause-time reports, collector counters,
    promotion thresholds, step budgets, the work-stealing queue, and the
    collector's steps over object ids: the incremental phase machine and
    the collector's state (`gc::young`: the start of a mark,
    budgeted marking and sweeping, the step of incremental collection
    through its phases, and young-generation collection, with
    the generations, ages, marks, the remembered set, the heap list, the
    counters and the pause report) and the addresses of compaction.
  - `compiler`: pipeline stages, code generator and optimizer state,
    compilation options, the lexer, the statement parser and SHA-256
    cache keys.
  - `codegen`: the syntax tree, the virtual machine's instructions, the
    generator from statements and expressions to instructions (with or
    without local slots) and constant folding.
  - `jit`: events, statuses, statistics, the choice of an optimization
    level, the compiler's table of function profiles (calls, times, the
    decision to compile a function and the events it raises; the adaptive
    thresholds come from the caller), and the optimizer's passes over
    instructions: constant folding (the numbers a fold produces come from
    the caller), dead code elimination, common subexpression elimination
    and loop-invariant code motion.
  - `ffi`: a bounded value pool, the status codes of the native API, the
    values handed across it with their property and element helpers, and
    the standard module's `throw_error`.
  - `vm`: the interpreter (`vm::machine`): one instruction at a time
    (`execute_instruction`) and a run over a program with a step budget
    (`execute_instructions`), over the stack, globals, call frames,
    functions, exception handlers and counters; the instruction set's
    jump arithmetic, the exception-handler table and performance counters.
    The interpreter does no arithmetic: the binary and unary operations
    only advance.
  - `platform`, `language`, `webidl`: platform queries, alignment,
    dynamic-library names, language features and WebIDL results.
- `app/` holds what cannot be verified: the build's platform, the dynamic
  loader, raw memory behind the allocators, the driving of incremental
  collection by the adaptive time budget (`collector.rs`), and what computes with
  floating point: the rates and reports, the values of folded constants
  (`fold.rs` for the code generator, `jit.rs` for the just-in-time
  optimizer), the adaptive compilation thresholds (`jit.rs`, which also
  hands the compiler's events to its callbacks) and the recognition of
  number tokens.
- `tests/` runs the library on concrete values.
