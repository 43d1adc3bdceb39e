# ntfy_app

The logic of the ntfy desktop client, verified with Verus: which automation
rules a notification matches and what they ask for, the checks a rule must
pass before it is saved, the notification schedule, the log pages, the
background WebSocket that takes over from the page, and the Linux volume
fallbacks.

- `src/` is the verified library. Each public function states what it
  returns in its `ensures`; `src/laws.rs` holds the properties that span
  functions.
- `tests/` runs the library on concrete values.
- `app/` is the Tauri shell: windows, tray, database queries, the
  WebSocket task and the devices. It hands plain values to the library and
  carries out what the library decides.
