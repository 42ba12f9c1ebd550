# mote_shell

The decision core of the mote browser shell, verified with Verus.

`src/` holds what the shell decides: what the omnibox makes of typed text, what
every operation, command and key does to the tabs, what the chrome is told, which
plugins load and what a dialog's answer grants them. Each function states its
result over mathematical models, and `laws.rs` states what holds of the shell as a
whole. What has to be done outside (by the browser engine, the session, the plugins
and the window) leaves the library as a list of effects.

`app/` is ordinary Rust around it: the window and its event loop, the platform that
performs the effects, and pixel arithmetic in floating point.

`tests/` runs the library from outside.

Outside crates are called through a few trusted items, each beside the code that
needs it: `psl` and `url` in `omnibox.rs` and `url_analysis.rs`, `clearurls` in
`url_analysis.rs`, `serde_json` in `json.rs`, and the Unicode tables of the standard
library in `picker.rs`.
