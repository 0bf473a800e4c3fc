# rustpython_jit

Translation of Python bytecode into C source code, written in Verus: the
translation rules are stated as contracts over mathematical models and
proved.

## Layout

- `src/lib.rs` — `compile` and `compile_checked`, the value types
  (`JitType`) and the errors (`JitCompileError`), and the law on the shape
  of generated code (it starts with the `stdint.h` include and declares the
  function with one parameter per argument type).
- `src/instructions.rs` — the C code generator. `spec_step` says what each
  instruction does to the generator's model (body text, simulated stack,
  variables, temporaries, helper needs); `spec_run` and `spec_compile` fold
  it over a code object. Laws on arithmetic: in-place operators write as
  their plain forms, and the result types of integer and float arithmetic.
- `src/bytecode.rs` — the code object that the translators read, with
  decoded instructions and constants.
- `src/bigint.rs` — the one call into outside crates: reading an integer
  constant as an `i64` through `malachite-bigint` and `num-traits`.
- `src/function_jit.rs` — reading argument and result types from a
  function's annotations, with the exceptions raised where they are
  missing.
- `src/transpiler.rs` — the register form: each stack value becomes a
  numbered variable; its listings; the law that every assigned variable is
  numbered below the final counter.
- `src/type_resolver.rs` — resolving the register form's types by repeated
  sweeps; laws that resolution keeps the types it has found and that it
  ends within one sweep more than there are statements; the report and the
  resolved type map.
- `src/frontend_c.rs` — a C back end for the register form.
- `src/text.rs` — decimal spelling of integers.
- `tests/` — the code generator's tests on hand-written bytecode, and tests
  of the other modules.
- `app/lib.rs` — the library on code objects of `rustpython-compiler-core`,
  the error type with its `Display`, and printing of the listings.
