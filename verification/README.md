# lab_suite

A suite of small desktop tools (calculator, clipboard history, password
vault with TOTP, image viewer, media player, system monitor and an
installer hub) whose logic is a library verified with Verus.

## Layout

- `src/` — the verified library, one module per concern:
  - `crypto` — the `.tkeys` vault file (Argon2id + XChaCha20-Poly1305, header
    as associated data); `vault` and `json` — the vault document and its
    conservative edits; `totp` — six-digit codes from base32 secrets;
    `quick` — the stored form of a vault key.
  - `history`, `poller`, `controller`, `prefs`, `tray` — the clipboard
    history, the poller's decisions, the tray controller's decisions, the
    hotkey preference and the tray icon.
  - `calc` — the calculator's front end (tokens, postfix order, stack check).
  - `media`, `img`, `order`, `player` — file kinds, folder listings ordered
    without regard to case, export decisions, player decisions and mpv IPC.
  - `hub`, `monitor` — the installer's catalog and texts; the monitor's
    formatting, sorting and filtering.
  - `i18n`, `theme`, `config`, `text`, `clock` — interface texts, palettes,
    settings, text helpers and the wall clock.
- `tests/` — tests run against the compiled library with the real crates.
- `app/` — what stays outside the proofs: files, threads, processes, serde
  and floating-point arithmetic.

Calls into outside crates go through small trusted wrappers whose contracts
are stated next to them; everything else in `src/` is proved.
