# stem_desktop

The core of the StemRed desktop shell, written in Verus: the shell's rules — the update
coordinator, link handling, file naming, transfer limits, secret-chat tickets and the smaller
decisions around them — are executable functions with contracts that Verus proves. What comes
from outside (URL parsing, UUIDs, Base64, version ordering) is called through trusted wrappers
whose contracts are believed, and what is random (UUIDs drawn for ids and tickets) is stated
only as far as every outcome allows: it is canonical UUID text.

- `src/` — the verified library.
  - `update_rules`, `update`, `update_laws`: the native update coordinator as a state machine
    (checks, downloads, safe points, installs, boot confirmation and quarantine, telemetry),
    with the properties that span its steps proved as laws.
  - `transfer`: the budget of concurrent file transfers and the payload limits.
  - `links`, `bootstrap`: which URLs the shell opens, `stem://` deep links, and start-up
    against the server's client configuration.
  - `secret`: crypto identities and single-use tickets of the secret-chat window.
  - `notifications`, `files`, `diagnostics`, `activity`, `taskbar`, `shell`: notification
    suppression, download and music file naming and ordering, diagnostics files, activity
    categories, taskbar buttons and icon masks, tray, autostart and chunked saves.
  - `ids`: calls into `uuid` and `base64` behind trusted wrappers. The `url` and
    `serde_json` wrappers stand in `links`, the `semver` ones in `bootstrap`, and the std
    string wrappers in `text` and `files`.
  - `text`, `format`: the text helpers the contracts are written with, number formatting and
    the stable hash that names files.
- `tests/` — tests of the library on concrete values.
- `app/` — the Tauri shell around the library: commands, windows, tray, files, registry,
  Windows APIs and network requests. It is ordinary Rust and is not verified.
