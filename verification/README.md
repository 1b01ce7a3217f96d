# fluxgate

The verified core of the Fluxgate API gateway, written in Verus.

`src/` is the library; every function in it carries a contract that Verus proves:

- `token_bucket` — request cost estimation and the token-bucket admission rule
  (milli-tokens, milliseconds), with the burst bound over any run of requests.
- `rate_limiter` — bucket store keys and the limiter's replies.
- `auth` — bearer-token extraction, key hashing, cache keys and the guard's steps.
- `admin` — API-key issuance, bucket overrides and metrics identifiers.
- `portal` — Argon2 password hashing and login checks for the developer portal.
- `proxy` — round-robin choice of downstream nodes and reply mapping.
- `dns` — DNS messages as plain values, wire encoding through `trust-dns-proto`,
  and the local-zone resolver.
- `doh` — the primary/fallback resolution chain, the cluster provider and the
  upstream JSON provider.
- `config` — gateway settings, port parsing and the downstream node list.
- `text`, `digest` — string operations and hashing helpers.

`app/` is the gateway program: Axum routing, PostgreSQL and Redis access,
HTTP clients, JSON bodies and JWT signing, all handing their decisions to the
library. `tests/` exercises the library on concrete values.
