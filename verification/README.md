# occt_wasm

A host for the OpenCascade (OCCT) CAD kernel compiled to WebAssembly and run
under wasmtime, written in Verus. The kernel runs in a sandbox; the host
loads it, answers its imports, and moves data across the WASM boundary.
The contracts of the host say what each step does to the kernel's linear
memory and what every read gives back.

## Layout

- `src/codegen.rs`: the export policy of the minimal kernel profile: which
  `occt_*` exports a blob built from a spec table and an optional-category
  policy must keep, with the laws that the set partitions the specs by the
  policy, always keeps the lifecycle exports, and keeps exactly the
  accessor groups that core results need.
- `src/kernel.rs`: `OcctKernel`: creation from plain, compressed or
  compiled modules; the memory protocol (`write_bytes`, `read_bytes`, typed
  slices); the error protocol; the result readers; the BREP IR lift. The
  lifecycle exports and the accessors of the core result groups are bound
  at creation, and a module without one is refused; the projection and
  label-info accessors are looked up when used, and a missing one is
  reported as `MissingCapability`. The contracts tie each value read to the
  answer of the export it came from and to the bytes read from the
  kernel's memory, and say for which named reasons a load is refused.
- `src/host.rs`: the imports the kernel module needs (`clock_time_get`,
  `fd_write`, and zero-answering stubs of each import's own type), and
  what the linker is left defining.
- `src/words.rs`, `src/text.rs`: little-endian words and text decoding.
- `src/runtime.rs`: the wasmtime types and the trusted wrappers around the
  wasmtime calls, with the model of the store they are stated over.
- `src/types.rs`, `src/error.rs`: result and error types. Floating-point
  values are carried as their bit patterns.
- `app/lib.rs`: float views of the results, loading precompiled artifacts
  from disk, and a kernel handle that tears the runtime down on drop.
- `tests/`: tests against small WAT modules that speak the kernel's
  protocol.
