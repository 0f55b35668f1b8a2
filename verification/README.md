# vietime

Verified core of the VietIME tools: the doctor that diagnoses Vietnamese
input-method setups on Linux, and the installer that plans, runs and rolls
back an input-method install.

- `src/` is the library, written in Verus. Each public function states what
  it returns in its contract, and the laws the tools rely on are proof
  functions (for instance `envfile_laws::law_set_is_idempotent`,
  `executor::law_rollback_spares_present_packages`,
  `apps::law_resolve_ignores_case`).
  - Installer: `model` (combos, steps, plans), `planner`, `envfile` and
    `envfile_laws` (the managed block of env files), `sudo`, `packageops`,
    `snapshot`, `executor`, `cli`, `host`.
  - Doctor: `checkers` (VD001–VD015), `recommendations`, `reconcile`,
    `daemons`, `detectors`, `apps`, `electron`, `resolve`, `fcitx5_config`,
    `ibus_engines`, `engine_packages`, `render`, `runtime`.
  - `text` and `managed` hold the string and sorted-map helpers.
- `tests/` runs the library on concrete values.
- `app/` is the `vietime-installer` command: argument parsing, file and
  process I/O, the serde copies of the manifest types, and the async
  driver around the library's decisions.
