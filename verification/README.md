# lisadbg

A command-line debugger for Windows executables whose core is verified
with Verus.

- `src/` is the library: command parsing and the debugger's configuration
  (breakpoints, hooks, skipped functions, watchpoints, created functions,
  defined structures), register contexts and debug registers, the PE
  parser, symbol tables, memory search and writes, the disassembly listing
  and the debug loop as a state machine. Each public function states its
  result in its `ensures`; the laws that relate several of them are proof
  functions named `lemma_*`.
- `app/` is the program around it: the prompt, the Windows debugging API,
  reading and writing the debugged process, and loading symbol files.
- `tests/` runs the library on concrete inputs.

Verify with Verus on `src/lib.rs`; the outside crates that the library calls
(iced-x86 for decoding instructions, gimli for decoding DWARF expression
operations) are reached through a few trusted functions marked
`#[verifier::external_body]`, each with a doc comment saying what is assumed
of it. What the library makes of their results (the listing, which operations
are sized or literal, how entry values are inlined, where decoding stops, how
attributes become symbols) is verified. `app/` walks the DWARF units and
entries with gimli and hands each entry's raw attributes to the library.

Numbers are read the way the standard library's `from_str_radix` reads them
for primitive integers (an optional sign, then digits of the radix); that
whole behaviour is the spec function `number::parse_radix`, and the tests
compare the verified reader with the standard library on every short text
over a set of awkward characters and at each type's bounds.
