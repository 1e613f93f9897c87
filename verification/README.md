# okey (verified core)

The part of the okey key remapper's command line that decides things,
written in Verus and proved against its contracts:

- `src/text.rs` — characters, UTF-16 units, decimal and `{:#06x}` rendering,
  hexadecimal parsing as `u32::from_str_radix(_, 16)` does it, splitting.
- `src/device.rs` — keyboards: reading vendor, product and id off a raw device
  path, and the lines of the keyboard listing.
- `src/name_search.rs` — the SetupAPI search for a keyboard's friendly name,
  as a state machine driven by the caller.
- `src/service.rs` — the Windows service: its definition, status report,
  control handler, the steps of a run and the wait for it to stop.
- `src/launch.rs` — command lines okey starts itself with.

`app/` performs the Windows calls (raw input, SetupAPI, service control
manager) that these functions ask for; it is only built on Windows.
