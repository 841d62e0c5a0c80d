# mimo_herdr

Makes MiMo Code a first-class custom agent in Herdr: lifecycle state in the
sidebar, crash-proof exit cleanup through a watchdog, one-command spawn, and
an end-to-end smoke test.

- `src/` is the verified library: the herdr command lines and the
  reading of herdr's JSON replies (`herdr`), JSON values (`json`), install and
  uninstall decisions and file locations (`install`), spawn planning
  (`spawn`), the health report (`status`), the smoke test's stage machine and
  the trusted-workspaces file updates (`verify`), the watchdog's release stamp
  (`watch`), and the string and path algorithms they rest on (`text`, `path`).
- `app/` is the `mimo-herdr` program: argument parsing, running herdr,
  the file system, clocks and waiting.
- `tests/` runs the library on concrete values.

The plugin and shim templates are read at run time from `plugin/` and `shim/`
beside the executable.
