# luminaire

Control logic for an Elgato Key Light, verified with Verus.

- `src/` — the verified library:
  - `app_state` — connection state machine and consecutive-error counter (three errors in a row disconnect);
  - `commands` — what each event (connect result, reply, poll, failure, toggle, disconnect) does to the state and what it reports;
  - `keylight` — Kelvin/API temperature scale, brightness clamping, PUT bodies, request URLs, reply interpretation;
  - `icon` — the 32x32 tray icon, computed with exact integer geometry;
  - `tray` — tray tooltip, labels, menu and pixmaps;
  - `config` — the persisted settings type;
  - `text` — decimal numerals.
- `app/` — the Tauri application around it: HTTP (reqwest), settings file (toml, directories), tray (ksni, Tauri, objc), event emission.
- `tests/` — tests of the library, including a comparison of the icon with a floating-point rendering.
