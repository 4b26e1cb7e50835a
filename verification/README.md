# riscv_vm

A RISC-V virtual machine whose logic is stated in contracts and proved with Verus.

`src/` is the library:

- `vm/`: a small machine of its own: memory, a console, a processor, and the loader of ELF images;
- `cpu/`, `mmu.rs`, `bus.rs`: the processor core as a state machine, address translation and
  physical memory;
- `engine/`: decoded instructions and the blocks they form;
- `jit/`: the compiler from blocks to WebAssembly. `codegen.rs` says which code an instruction
  becomes, `compiler.rs` emits it through `wasm_encoder` (wrapped in `wasm.rs`), and `semantics.rs`
  with the modules under it gives that code a meaning. A hart that runs a compiled block whose
  instructions the interpreter completes then stands where the interpreter would stand, with the
  same registers and memory; where the interpreter ends in a trap, so does the compiled block.
  Blocks that load into `x0` are left out. `cache.rs` keeps compiled blocks, `state.rs` is the
  memory shared with them, `worker.rs` the messages to a compiling worker, `trace.rs` and
  `disasm.rs` are for debugging;
- `devices/`: the system information device;
- `net/`: the frames a guest's network card sends, and the gateway that answers or relays them.

`tests/` runs the library, compiled code among it on a small evaluator. `app/` is the ordinary Rust
around it: the command line, the browser and its worker, and the peer-to-peer connection.

What the library believes of other crates is written down beside the calls: `wasm_encoder` in
`jit/wasm.rs`, `lru` in `jit/cache.rs`, `elf` in `vm/loader.rs`, `multiaddr` in `net/backend.rs`.
