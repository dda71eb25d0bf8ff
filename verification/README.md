# viralefy_api

The edge dispatcher of Viralefy: every request enters here and is checked before it is handed to
one of the services behind it (core, auth, payments; no path leads to the sender).

- `src/` is the library: routing, header filtering, path safety, text sanitizing, token
  verification, the key cache, the set of revoked tokens, settings, errors and metric labels.
  It is verified with Verus. Calls into `http`, `regex`, `ammonia`, `jsonwebtoken`,
  `base64` and `serde_json` stand behind small trusted functions, each with a comment that says what is taken
  on trust.
- `tests/` runs the library with those crates linked.
- `app/` is the program: the server, the HTTP client, the database connection, logs and metrics.

| Module | What it says |
|---|---|
| `security` | which paths are refused, what is left of free text |
| `headers` | which headers pass, in either direction |
| `proxy` | which upstream serves a path, and how a request and its response are carried |
| `auth`, `jwt` | when keys are fetched, which tokens verify, which are revoked |
| `middleware` | what the checks on a request decide |
| `config`, `error`, `metrics`, `routes` | settings, error replies, labels, probes |
| `text` | strings as sequences of characters |
