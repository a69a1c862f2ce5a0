# corewindows

Open windows on TontooOS with their toolkit type (`UIKit`, `TontooUI`,
`Linux`) and app icon, and the installed `.app` programs.

- `src/` is the verified library: the daemon protocol (request lines, reply
  frames, row decoding), toolkit classification, bundle and icon resolution,
  localized error messages and the program listing, each with its contract.
  `src/laws.rs` states the properties that span several operations.
- `app/` is the system side: the unix-socket transport, `/proc` reads, the
  applications directories and zip archives, the environment, serde forms of
  the records and the C interface. It hands the library what it read.
- `tests/` runs the library on concrete values.
