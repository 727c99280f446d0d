# solo2-runner

Firmware logic of a security key for nRF52840 boards, verified with Verus.

- `src/` is the library: plain readings (pin levels, register words, a millisecond
  clock) go in, decisions come out. Nothing in it touches hardware.
  - `gesture` recognises button gestures and latches them
  - `presence` reads user presence and answers a waiting wallet
  - `ui` holds the crypto service's status and the LED indications
  - `led`, `report`, `trace` are the diagnostics that need no debugger
  - `uicr` repairs the NFC pins; `uicr_laws` proves what that does to the flash
  - `boot`, `runner` order the start, the idle loop and the interrupts
  - `supermini`, `config`, `clock` are the board, the features and the time
- `app/` is the firmware around it: RTIC tasks, registers, pins and the traits of
  the crates it plugs into. The applications, the NFC stack and the drivers of the
  DK and Solo boards are linked in through `app/environment.rs`.
- `tests/` runs the library on concrete values.
