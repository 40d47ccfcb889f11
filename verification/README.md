# tishlang_desktop

The decision core of the Tish desktop runtime: a Tauri host that runs Tish scripts and
talks to webviews over the `desktop/v1` broker protocol.

`src/` is a Verus-verified library. It holds what the host decides: which part of the host a
broker command reaches, how each command reads its arguments and what it answers, the shared
`state.*` store with its revisions and JSON merge patches, the surface and window registries,
extension registration, the OAuth2 PKCE login flow, the resource protocol's path policy,
directory listing order, the run plan, menus, the tray, shortcuts and sleep blocks. Contracts
are stated over mathematical views (`JsonV`, `Seq`, `Map`); `src/laws.rs` states properties
that span several operations.

Calls into `base64`, `sha2`, `rand`, `url` and `serde_json` are made through small trusted
wrappers whose contracts state (base64 encoding, JSON string quoting) or name (SHA-256, URL
parsing, base64 decoding) what those crates compute.

`app/` is the unverified host around the library: Tauri and its plugins, the OS keychain, the
loopback HTTP listener, the file system, the Tish value ABI and the `mode` launcher. It hands
the library plain values and applies what the library answers.

`tests/` runs the library on concrete inputs.
