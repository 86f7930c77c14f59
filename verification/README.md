# weaklink

Runtime side of weakly linked dynamic libraries, verified with Verus.

- `src/library.rs`: the state of a library (handle, symbol table, the shadow
  table and global assertions of checked mode), the steps of loading and of
  resolving a symbol, and the per-thread assertion counters.
- `src/group.rs`: symbol groups, their cached resolution status and the steps
  of resolving every symbol of a group.
- `src/stub_gen/loongarch64.rs`: the assembly text of the LoongArch64 stubs.
- `src/laws.rs`: properties that span several operations.
- `app/`: the platform loader (`dlopen`/`dlsym`), the per-thread storage of
  checked mode (`thread_local`) and the locks that share the verified state
  between threads; it performs what each step asks for and feeds the outcome
  back.
