# ferrino

Ferrino is an Arduino-like framework for embedded applications: one
application targets several boards, boards declare their capabilities, and the
`ferrino` tool builds and runs the application for the board selected.

`src/` is the verified library:

- `boards` — the table of supported boards and lookup by name;
- `cli` — what each command of the tool does: the listing it prints, the
  `cargo` invocation it starts, the refusal of unknown boards;
- `build_config` — the `rustc` configuration flags of a target, the board named
  by cargo's feature variable, and where the board's memory layout goes;
- `entry` — the start-up code chosen for a target and the checks on an
  application's `main`;
- `spi` — the bit-banged SPI protocol of the Pico W's wireless chip;
- `device` — the device handed to `main`;
- `laws` — properties that tie the tool, the build step and the entry together.

`app/` holds the command line program, the build step's I/O, the `main`
attribute's token handling, and the boards' hardware set-up.
