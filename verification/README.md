# xcq

Cross-consensus queries: a host runs small PolkaVM programs that query the
extensions it offers (fungible assets, the extensions themselves, ...).

The library in `src/` holds, with their contracts:

- `types`, `type_info`, `metadata`: descriptions of types and of extensions,
  and their SCALE encodings;
- `codec`, `protocol`, `call_data`: the bytes that cross between host and
  program: addresses and lengths packed into a `u64` (the host answers
  length high and address low; a program returns address high and length
  low), and the layout of the calls a program's entry point receives;
- `extension`: routing a call to the extension it names, and the permission
  check;
- `host`, `executor`: the decisions of the host functions and of a program
  run, as state machines that a driver performs step by step on the machine;
- `syntax`, `naming`, `program`, `pvq_program`, `extension_decl`, `derive`:
  what the code generators decide about the Rust items they are given;
- `runner`: the extensions and inputs of the test runner.

`app/` drives the virtual machine, parses Rust syntax for the generators and
writes their output, and holds the test runner's `main`.
