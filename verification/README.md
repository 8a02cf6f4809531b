# melos_rs

Workspace management for Dart and Flutter monorepos (the Melos model): a
workspace configuration, its packages, scripts run across packages, version
bumps with changelogs, and a terminal interface. The library is written in
Verus: each public function carries a `requires`/`ensures` contract over
mathematical models (`Seq`, `Set`, `int`, views of the data types), and
Verus proves the code against it.

## Layout

- `src/` — the verified library.
  - `text` — character-level helpers and their specifications (trimming,
    splitting, joining, lines, digits).
  - `config`, `workspace`, `package` — the configuration (6.x `melos.yaml`
    and the 7.x `melos:` section of a root `pubspec.yaml`), its validation,
    packages read from `pubspec.yaml` fields, and package filters.
  - `script`, `expand`, `run_plan` — `melos exec` flags, brace and
    `&&`-chain expansion, variable substitution, and the plan of a `run`.
  - `version`, `release`, `pubspec`, `commit_log` — semantic versions,
    conventional commits, version plans, edits to `pubspec.yaml` text,
    changelogs, and `git log` output grouped by package.
  - `overrides`, `enforce`, `commands`, `flutter_build`, `init` — bootstrap
    overrides, version enforcement, command lines, build configuration and
    new-workspace files.
  - `tui`, `app`, `events`, `dispatch`, `views`, `health`, `watcher`,
    `order`, `runner` — the state machine of the terminal interface and
    what its panels show (lines of styled text, colours as roles), health
    checks, file-watch decisions, stable sorting and the concurrency gate.
  - `theme` — colours read from theme entries (names, palette indices,
    `#RRGGBB`, `RRGGBB`, `#RRGGBBAA`) and the themes built from them.
- `tests/` — tests of the library on concrete values.
- `app/` — the command-line program: argument parsing, reading YAML files,
  running processes and git, printing. It hands plain values to the library
  and acts on what comes back.

Calls into `semver`, `pathdiff`, `anyhow`, `tokio`, `ratatui` and `std` that Verus does
not see into stand behind small trusted wrappers whose contracts either
state what the documentation promises or name the result.
