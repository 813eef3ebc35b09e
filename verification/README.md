# parblo

A driver for the Parblo Intangbo M drawing tablet on Windows.

- `src/` is the verified library: the device's input protocol and handshake,
  the button mapping language and its schemas, the decisions of the driver
  (which action a button or stylus button triggers, which schema comes next),
  the key and pen injection state machines, the monitor and log state, and
  the text that the settings screens show. Every function there carries a
  contract that Verus proves.
- `app/` is the program around it: configuration file I/O (TOML), Win32 HID
  access, `SendInput` and synthetic pointer injection, the floating-point
  pressure curve and area mapping, and a small console.
- `tests/` exercises the library on concrete values.
