# github-ranked

Competitive developer ranks from GitHub contributions, served as SVG badges.

- `src/` is the verified core (Verus): request validation, cache keys and
  lifetimes, the API error envelope, the personal-access-token pool, the
  decisions of the GitHub GraphQL transport (status verdicts, retries and
  backoff, quota reports, RFC 3339 reset times), batched query documents,
  Prometheus metrics, card palettes, labels, emblems, escaping and ids.
  Every public function carries a contract, and the `law_*` proof functions
  state the properties that span calls.
- `app/` is the HTTP service around it: axum routing and middleware, the
  moka/SQLite cache, the reqwest transport, the floating-point ranking engine
  and the card layout.
- `tests/` exercise the library from outside.
