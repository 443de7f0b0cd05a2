# deepdash

DeepDash is a Windows desktop launcher and global version manager for
`@deepseek-ai/dsh`. This crate holds its core, verified with Verus:

- `config`: the configuration file, what a stored copy must satisfy, and
  what loading and saving yield;
- `environment`: the executable names and directories tried on Windows,
  how a command is launched, the result of a `--version` probe, and the
  steps of environment detection;
- `network`: which IPv4 addresses are private LAN addresses, their
  dotted-decimal text, and the hosts offered for LAN access;
- `versions`: which published DSH versions the version page lists, in which
  order, and how each is tagged;
- `package_service`: each step of a global npm install or switch;
- `process_manager`: the `dsh web` command line, each step of a start, and
  what the manager remembers of the process it keeps across starts, stops
  and the process's exit;
- `commands`: the lifecycle states the user interface is shown, and each
  step of a restart from the tray;
- `error_mapper`, `models`, `text`: errors, the data model and text helpers.

Every function states its result in a `requires`/`ensures` contract; the
`law_*` proof functions state properties across functions (for example that
a whole start passes `--no-open` and listens only on 127.0.0.1 unless a LAN
address was chosen, that starting again while DSH runs changes nothing, or
that a configuration which saving lets through is accepted unchanged when
loading parses it back; encoding it to JSON and writing the file happen in
`app/` and are not proved).

`app/` is the Tauri application around the library: commands, the tray,
the window, and the I/O each step asks for (files, processes, the network,
the npm registry).
