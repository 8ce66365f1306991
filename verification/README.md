# mmix

A toolchain for Knuth's MMIX computer: a simulator, an MMIXAL assembler,
the `.mmb` program image with debug information, and the state of a
terminal debugger. The library under `src/` is written in Verus; every
function carries a contract, and Verus proves each one except those of six
small wrappers around std functions, whose contracts are trusted: `String::push`,
`String::pop`, `String::from_utf8`, `String::from_utf8_lossy`,
`str::to_uppercase` and `str::to_lowercase`. What the Unicode case tables
and the lossy decoding give, and the text of a UTF-8 error, are left as
names that the contracts do not define.

## Layout

| Module | Contents |
|---|---|
| `instruction` | instruction words and their four byte fields |
| `op`, `opcodes` | the opcode constants, names, operand formats and timings |
| `register` | special and general registers |
| `memory` | sparse byte memory, big- and little-endian access |
| `machine`, `execute` | the machine state and the meaning of each instruction |
| `basic` | a machine with sequentially numbered special registers |
| `text` | the string handling the assembler needs (trimming, splitting, case, UTF-8) |
| `parse` | operands: numbers, registers, special registers, string literals, symbols |
| `encode` | the mnemonic table and the operand grammar of each format |
| `assembler` | the two passes: symbols, then code and data |
| `binary` | writing and reading `.mmb` images |
| `debugger` | stepping, breakpoints, runs, keys, and what the screen shows |

`app/` is the terminal program around the library: command line, files,
and drawing with ratatui.

## What is proved

Among others: decoding an encoded instruction gives its fields back; a
value written to memory reads back; `Machine::step` computes exactly the
state that the instruction semantics give (signed division rounds down,
shifts of 64 or more clear or sign-fill, JMP spans 24 bits); `assemble`
returns exactly what the two passes over the source text define, the mapped
lines are exactly those that emit code or data, and the address map and the
line map agree; a data directive emits each of its operands, strings and
numbers alike; an image read back gives the entry address, the code, the
line map, the file name and the source lines that were written; toggling
a breakpoint twice restores the breakpoints.
