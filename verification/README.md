# library

Shared building blocks for terminal dashboards, screensavers and RGB lighting
tools: platform and system information, an OpenRGB client, a text-file
registry, a `key: value` configuration format, package inventories and the
layout of a few accent-colored TUI widgets.

## Layout

- `src/` is the verified library (Verus). Every function there carries a
  contract, and the properties that relate several functions are proved as
  `lemma_*` proof functions:
  - `text` — character-level helpers (lines, words, trimming, numbers,
    patterns) specified after the standard library's behavior;
  - `toolkit::config` — configuration text: parsing, rendering, and the
    save-then-load laws;
  - `reg` — the text-file registry: reads, writes, deletes and listings;
  - `role::application::rgb` — OpenRGB packets, reply checks and the
    controller-data payload parser; `rgb::controller` — the RGB thread as a
    state machine;
  - `toolkit::sys_info_linux`, `platform::native::sys_info::windows`,
    `sys_info::linux`, `platform::native::monitors` — what the Linux and
    Windows platforms make of the files, command outputs and system values
    they read;
  - `role::application::{formatting, packages, game}`, `widgets`, `ui`,
    `screensavers` — dashboard lines, package counts, widget layout and the
    discrete states of the mini-game and the cosmos scene.
- `app/` holds what touches the machine: file and command readers, Win32
  calls (`windows-sys`), the Windows registry (`winreg`, Windows builds only),
  the environment, sockets, the RGB thread, caches, `sysinfo` readings and the
  `ratatui` widget implementations. It hands what it reads to the library.
- `tests/` exercises the library on concrete values.
