# eshop

The decision logic of a small e-commerce backend (API gateway, catalog,
basket, ordering and identity services), written in Verus with its
contracts proved.

- `src/` — the verified library:
  - `money` — decimal amounts as (mantissa, scale); sums of price × quantity
    computed with `rust_decimal`, exact where no rounding can occur;
    rounding to cents.
  - `basket` — baskets: adding (quantities accumulate per product),
    removing, totals, store keys.
  - `ordering` — order checks, stock and catalog pricing, order totals, the
    order-created event, the status transition rule
    (Pending → Confirmed, Pending → Cancelled, Confirmed → Cancelled).
  - `gateway` — configuration from the environment, the route table and
    token admission, routing by path
    prefix, hop-by-hop header filtering, `x-user-id` injection.
  - `identity` — registration and login decisions, Argon2 hashing.
  - `consumers` — what the basket and catalog services do with each
    order-created delivery.
  - `http` — status codes and lookup outcomes.
  - `text` — decimal rendering of integers.
- `app/` — the five services around the library (HTTP with axum,
  PostgreSQL with sqlx, Redis, Kafka, JWT); run one with
  `<binary> gateway|catalog|basket|ordering|identity`.
- `tests/` — tests of the library on concrete values.
