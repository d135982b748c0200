# haraltr

Proximity-based session locking for Linux. A daemon watches the relative
path loss of the active user's Bluetooth devices, locks the login session
through systemd-logind when every device has gone, and unlocks it when one
comes back. A PAM module asks the daemon the same question, and a small web
UI edits the configuration.

- `src/` is the library, verified with Verus: the proximity state machine,
  the supervisor that turns device wishes into lock and unlock commands, the
  configuration model with its defaults, resolution and validation, MAC
  address parsing, the PAM query protocol and verdicts, web sessions and
  logins, the device-list edits of the web UI, the JSON deep merge used to
  patch the configuration, and the search for the active logind session.
- `tests/` exercises the library on concrete values.
- `app/` is the program around it: command line, configuration file, D-Bus,
  the kernel's Bluetooth management socket, virtual input devices, the IPC
  socket, the HTTP server and the PAM entry points.
