# vm32

A small 32-bit computer: an assembler that turns assembly text into a byte
image, and the machine that runs such images, with a text terminal, simple
graphics, a hard drive and a CD drive.

The library in `src/` is verified with Verus:

- `text`, `number`, `isa`, `encode`, `assembler`, `project`: the two-pass
  assembler, from source text (or a project directory's files) to image;
- `machine`, `cpu`: registers, memories, and one instruction of a core;
- `devices`, `screen`: booting, input, the drive's dirty flags, and what the
  screen shows;
- `laws`, `cpu_laws`: properties that span several functions (label
  addresses, operands read back, push/pop, store/load, call and return, a
  core staying well formed, exactly when a step faults).

`app/` holds the command line and the window: `vm32 asm <source> <image>
[p [entry]]` assembles a file (or, with `p`, a directory), `vm32 vm` boots
`boot.bin`, `cd.bin` and `DRIVE/*.BIN` and opens the machine's window (it
reads its font from `fonts/Perfect_DOS_VGA_437_Win.ttf`).
