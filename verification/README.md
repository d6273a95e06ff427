# chira

A manager for throwaway scratch files and directories, with a TUI and one-shot subcommands.
The rules of the program live in a library whose behaviour is specified and proved with Verus;
a thin program around it reads the terminal, the environment and the file system.

## Layout

- `src/` — the verified library
  - `text.rs`, `path.rs`: characters, Unix paths as text
  - `clock.rs`: local time, and the name templates of new files and directories
  - `scratch.rs`: the scratch root, safe names, listing order, the `tree` view, root guards
  - `archive.rs`: TTL parsing, keep globs, archive destinations, the per-entry sweep decision
  - `sweep.rs`: the archive sweep as a state machine over file-system answers, with its laws
  - `config.rs`: the configuration file's path and the settings read from its TOML table
  - `settings.rs`: the configuration screen (`,`) as a state machine, and the changes a save
    writes back through toml_edit
  - `external.rs`: which editor or shell runs, command-line words, exit codes
  - `cmdline.rs`, `cli.rs`: the program's options and the subcommands' arguments and output
  - `app.rs`: the TUI as a state machine over keys and file-system replies, with its laws
  - `ui.rs`: popup geometry, wrapping, truncation and per-mode texts
  - `i18n.rs`: every message in English and Japanese
- `app/` — the program: terminal drawing with ratatui, file-system work, external processes
- `tests/` — tests of the library, including in-memory file systems that drive the TUI and
  the sweep

The TUI never touches the disk itself: each key press may leave one request (list, create,
rename, remove) in `App::io`; the driver performs it and hands the outcome back with
`App::answer`, until no request is left.

The sweep works the same way: `Sweeper::request` names the next fact or change it needs
(inspect an entry, probe a keep marker, list or create the archive, move an entry), and
`Sweeper::answer` takes the outcome.
