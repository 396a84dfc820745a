# bytebox

An Amstrad CPC 6128 emulator whose machine is a verified library.

- `src/` is the library, verified with Verus: memory banking (standard and
  extended RAM), the 6845 CRTC and its frame timing, the GA chip (palette,
  modes, interrupt counter), the PPI, the PSG's registers, keyboard matrix
  and sound generators, the floppy controller and the `.dsk` format (read
  and write), the `.cdt` tape format and its pulse replay, `.sna`
  snapshots, the video renderer, the trace recorder, the auto-typer, the
  monitor's command parser, its hexadecimal numbers and what each
  command does to the machine, the `hw` hardware status report, and the small policies around them (audio
  latency regulation, frame pacing, configuration sections, ROM
  installation: unpacking the archives, reporting each file). Every public function states what it returns or
  changes; the laws that relate several calls stand as public proof
  functions (`lemma_*`).
- `app/` is the program around it: the Z80 (from `zilog_z80`), the SDL
  window, sound output and event loop, the console thread, file and
  network I/O, and the floating-point sample mixing.
- `tests/` runs the library on concrete values.

The trusted items are `crc32` (over `crc32fast::hash`), `zip_open_error`
and `zip_entry` (over the `zip` crate's archive reader) and `from_nanos`
(over `std::time::Duration::from_nanos`); their doc comments say what is
believed of them.
