# slopos_shell

Policy library of the SLOPOS-I desktop shell, written in Verus: every
function in `src/` carries a `requires`/`ensures` contract and is proved.

- `src/` — the verified library: settings and desktop-entry parsing,
  application search and ordering, the DBusMenu layout importer, display
  arrangement and apply plans, idle and inhibit policy, notification ids,
  the message catalog and locale rules, the foreign-toplevel registry and its
  protocol events, dock, launcher and lock-screen decisions, the global-menu
  command table, session-action confirmation and folder-window listing. Laws that span
  several calls are public proof functions named `law_*`.
- `tests/` — concrete scenarios run against the compiled library.
- `app/` — the shell's edges: command-line tools, files, environment
  variables, the Wayland, X11 and session-bus connections. It reads, hands
  plain values to the library, and carries out what the library decides.
