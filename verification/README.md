# digital_pantry

A household pantry kept as tables (users, items, receipts, recipes, shopping
list, digest subscriptions, audit events, the expiry-sweep timer) and changed
only by reducers, verified with Verus.

- `src/` — the verified library. Each reducer's contract states its effect
  and result exactly, as a spec function on the database's view
  (`tables::DbView`); `src/laws.rs` proves what every reducer keeps (unique
  keys, valid stock, one sweep timer, an append-only audit log, no change on
  failure) and how reducers behave when repeated. `src/poller.rs` holds the
  digest poller's decisions.
- `app/` — the SpacetimeDB module (tables and reducer entry points that load
  the tables into the library's `Database` and write the result back) and
  the poller's webhook delivery.
- `tests/` — runtime tests of the library.

The tables are held in the library as vectors (`tables::Database`) rather
than as SpacetimeDB tables: those are generated by spacetimedb's `#[table]`
attribute, which the verified library cannot use, and they work only inside
a SpacetimeDB host. Lookups are first matches in table order.

Quantities and prices are fixed-point numbers counted in thousandths, since
the verified library holds no floating-point numbers.
