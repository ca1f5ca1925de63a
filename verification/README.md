# f1_fantasy

The rules of an F1 fantasy league, verified with Verus, and the web service
that runs the league around them.

- `src/` is the verified library: scoring of fantasy teams, driver and
  constructor price changes, contest and team validation, leaderboards,
  matching OpenF1 results and standings to fantasy drivers and
  constructors, session key bookkeeping, the ordering of qualifying times,
  lap positions and telemetry samples, password hashing and checking,
  signing and checking access tokens, cache
  expiry and the decisions of the background scoring worker.
- `tests/` exercises the library on concrete values.
- `app/` is the axum service: routes, database and HTTP access, JSON
  copies of the library's types, and the floating-point telemetry
  arithmetic. It calls the library for every decision.
