# kerbalobjects

Reading and writing Kerbal Machine Code (KSM) files and Kerbal Object (KO) files, the
executable and object file formats of the Kerbal Operating System (kOS), verified with Verus.

- `src/` is the library. Every function carries a contract over a mathematical model of the
  file formats (`decode_*` spec functions for what reading gives, `*_bytes` spec functions for
  what writing appends), and the round-trip laws (`*_round_trip` proof functions) state that
  what is written is read back as itself.
- `src/ksm/` holds the KSM file: its header, argument section, code sections and debug section.
  A KSM file is compressed as one gzip stream; the library calls `flate2` for that.
- `src/ko/` holds the KO file: its header, section header table and sections (string tables,
  symbol tables, data sections, function sections and relocation data sections), with the
  validation that fills in the section header table before a file is written.
- `app/` holds copies of the error types that implement `std::error::Error` and `Display`
  (through `thiserror`), with conversions both ways.
- `tests/` runs the library on concrete files and byte strings.
