# belle

Tools for BELLE, a 16-bit big-endian machine: the assembler `basm`, the
emulator `belle` with its debugger, and the source formatter `bfmt`.

The library under `src/` is written in Verus and verified: every public
function carries a contract over mathematical models of its data, and
`src/laws.rs` states properties that span several operations (a value
pushed is popped back, a value stored is loaded back, what the assembler
writes the emulator decodes as the same instruction, mnemonics match in
any case, numbers written in decimal read back).

- `isa`, `semantics`, `execute`, `arith`, `control`, `machine`, `cpu`: the
  instruction set, its meaning as a function on machine states, and the
  executable machine proved to follow it.
- `rom`: the image format and loading it into memory.
- `text`, `numbers`, `tokens`, `lexing`, `lexer`, `symbols`,
  `symbol_table`, `codegen`, `encode`, `checks`, `suggest`, `diagnostics`,
  `assembler`: the assembler, from source lines to words, and the layout of
  its error reports.
- `debugger`, `history`, `misc`, `asm_config`, `emu_config`: the debugger's
  commands and its record of machine states, formatting helpers and the
  tools' options.

`app/` holds the programs around the library: command lines, files,
terminal input and output, and the floating-point registers r6 and r7,
which the verified machine hands to the program as a request.
`tests/` runs the library on concrete programs.
