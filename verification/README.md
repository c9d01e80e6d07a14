# dcb_tim

A reader for the PlayStation `tim` and `tis` image formats of Digimon Digital
Card Battle, verified with Verus, together with the pure state of the game's
tools (debugger memory, registers and number parsing, the assembler's label
table, the names the `.msd` extractor gives to unlabelled jump targets, file
editor swap window, card editor edit states).

- `src/` is the verified library. `tim` files are read from byte slices: each
  `deserialize` takes the bytes and a position and returns the value with the
  position after it, and its contract equates the result with a spec function
  that describes the format (`spec_tim`, `spec_img`, `spec_clut`,
  `spec_pixels`, `spec_tis`).
- `app/` reads files through `std::io`, gives the errors messages and sources
  (`thiserror`), and holds the tools' command line arguments (`clap`).
- `tests/` runs the library on concrete files.

Left out: the debugger's execute loop and prompt, the card, deck and file
editors' windows, the assembler, compiler, disassembler and decompiler
passes, and the CD-ROM and drive packers. They decode instructions and game
data through the `dcb`, `dcb_exe`, `dcb_msd` and CD-ROM crates of the game
tools' own workspace, and draw windows with `eframe`; this library does not
include them.
