# lonk

A self-hosted link shortener: the `lonkd` server (REST API, redirects that
carry custom response headers, QR codes, live dead-link checks, an embedded
web UI) and the `lonk` command-line client.

The decisions both programs make are written in Verus and proved against
their specifications:

- `src/validate.rs`: which URLs are accepted (http and https only) and
  which custom header pairs (token names, denylist, value bytes, limits).
- `src/args.rs`, `src/cli.rs`, `src/config.rs`, `src/paths.rs`: the
  command-line grammar, profiles, base-URL normalization, what every run
  prints and exits with, and the step-by-step shortening run.
- `src/server.rs`, `src/headers_json.rs`, `src/slug.rs`, `src/qr.rs`,
  `src/web.rs`: request checks, id allocation, redirects, QR targets,
  status reports, error bodies and static-file content types.
- `src/laws.rs`: properties that tie the parts together.

Calls into `url`, `qrcode`, `rand`, `serde_json` and `rocket` go through
small trusted wrappers whose contracts say what those crates do.

`app/` holds what Verus does not see: `main`, the Rocket routes, SQLite,
the config file, the terminal and the network. It asks the library for
every decision. `tests/` runs the library on concrete values.
