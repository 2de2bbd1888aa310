# fastboot_flasher

Planning and protocol logic for fastboot flashing of MediaTek and Android
devices, written in Verus and proved against its contracts.

`src/` is the verified library:

- `sparse`, `split`, `image`: Android sparse headers, splitting images for a
  device's `max-download-size`, download plans and the bytes of each download.
- `protocol`, `vars`, `transport`, `operation`: fastboot commands and replies,
  device variables, USB endpoint choice, download accounting, slot resolution.
- `cli`, `argv`: the command-line grammar and the actions a command line asks for.
- `manual`, `gsi`, `format`, `device`: manual flashes, the GSI flow's phases and
  mode transitions, userdata formatting decisions, device summaries.
- `force`: the preloader handshake and serial-port selection.
- `progress`, `layout`, `ui`: progress text, row layout and front-end decisions.
- `plan`, `simulate`, `gsi_rows`: flash plans as the front ends show them,
  dry-run event sequences, and the rows of a GSI flash as a state machine.
- `winusb`, `text`: the Windows backend's pure parts and string helpers.

`app/` is the command-line program: USB through nusb, serial ports, external
image builders, prompts and progress bars. `tests/` runs the library.
