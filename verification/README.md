# clidesk

The verified core of the CliDesk desktop backend, written in Verus.

- `src/` — the library. Path confinement (`security`), the component
  rules of `std::path` on Unix and on Windows (`paths`, `winpaths`), directory
  listings and file checks (`file_service`), Git status parsing and the
  order of Git queries (`git_service`), settings validation
  (`settings_service`), project registration (`project_service`), terminal
  bookkeeping, shells and PTY output handling (`terminal_service`,
  `terminal_cwd`), database errors (`database`), version handling
  (`app_info`), the Windows launcher's
  decisions and UTF-16 strings (`launcher`) and tray/window actions
  (`window`). Every function carries a contract that Verus proves; the few
  calls into `std`, `uuid` and `chrono` whose behaviour is assumed are
  marked `#[verifier::external_body]` and documented where they stand.
- `tests/` — tests of the library on concrete values.
- `app/` — the I/O shell: SQLite, the filesystem, Git processes,
  pseudo-terminals, the launcher's Windows calls, the clock. It performs
  what the library decides and hands the results back, telling the
  library which platform's path rules apply.
