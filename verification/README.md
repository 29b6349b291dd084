# macos-task-cleaner-core

A foreground task cleaner for macOS: it lists the GUI applications in the Dock
and the Cmd+Tab switcher, filters them through a four-tier whitelist, and
previews or performs a tiered shutdown (SIGTERM, a polled grace period, then
SIGKILL; Finder is asked to quit through AppKit and is never sent SIGKILL, so
that launchd does not respawn it).

The library under `src/` is verified with Verus:

- `whitelist` — the tier rules as a mathematical model (`WhitelistRules`),
  the protection decision, and edits of the configuration (append, add,
  remove, language) with their laws: critical daemons are always protected
  in the core tier, the caller's lineage is always protected, keeps protect
  despite removal records, a removal of a preset takes effect, adding again
  adds nothing.
- `signal` — the tiered termination engine as a state machine: the driver
  performs each action (signal, AppKit quit request, liveness probe, timer,
  sleep) and hands back the result. Every step is proved to act only on
  targets that may be acted on and never to send SIGKILL to Finder, and the
  report of a finished run holds exactly one record per target.
- `i18n` — locale parsing, language codes and the localised texts.
- `cli`, `interactive`, `preview`, `app`, `text` — command-line options,
  wizard commands, report rows, targets and their ordering, string helpers.

`app/` is the executable around it: AppKit and libc calls, the TOML file,
terminal and JSON output, and the loop that drives the engine.
