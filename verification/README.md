# soft65c02

A 65C02 processor simulator and the test-script language that drives it,
written in Verus: each function states its behaviour in `requires` /
`ensures` and Verus proves it.

- `src/` — the verified library:
  - the machine: `memory`, `registers`, `addressing_mode`, `opcodes`,
    `semantics`, `microcode`, `cpu_instruction`, `processing_unit`,
    `disassembler`;
  - program images: `atari_binary`, `apple_single`;
  - the script language: `grammar` (the language as specifications),
    `lexer`, `parser`, `commands`, `until_condition`, `symbols`,
    `executor`, `displayer`;
  - the unit-test runner's settings and helpers: `config`, `environment`,
    `command_executor`, and the tester's options in `arguments`;
  - `text` and `error`: strings, numbers in text, the error type.
- `tests/` — tests run against the compiled library.
- `app/` — the command line tester: reads the script and the files it
  names, runs it with the library, and writes the report.
