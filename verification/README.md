# cortex_m4_sim

An instruction-level model of a Cortex-M4 core running Thumb firmware, with its
semantics stated as Verus contracts and proved.

## Layout

- `src/` – the verified library
  - `arch`, `bits` – condition codes, APSR flags, the barrel shifter, modified immediates
  - `memory`, `bus`, `cpu`, `exceptions`, `context` – flash, RAM and peripheral address
    space, the register file, exception entry and return, interrupt selection, cycle
    accounting
  - `opcodes` – the Thumb decoder and interpreter (`thumb_decode`, `thumb_exec`,
    `thumb_step`), the decoded-instruction form and its normalisation (`decoded`), and the
    table-driven executors and operand resolvers of each instruction group
    (`instructions`)
  - `jit_engine` – the block table (decoding into table entries, division into basic
    blocks, the `FxHashMap` indices of blocks by start and by member address), the runtime
    helpers that compiled blocks call, and the engine counters
  - `disassembler` – reading an AXF/ELF image: vector table, mapping symbols, the split of
    code sections into Thumb and data regions, data halfwords, the code loaded into flash,
    and the Capstone disassembly of the Thumb regions (`listing`), whose records also feed
    the block table
- `tests/` – scenario tests of the library
- `app/` – the command-line program: reads the firmware file, writes the disassembly
  listing with Capstone's operand detail, loads the image and runs the interpreter until
  it stops. Block execution, which compiles blocks to machine code with Cranelift, is not
  part of it.

Every function in `src/` is verified; calls into `object` and `capstone` and a few std
functions go through the trusted items documented where they are declared.
