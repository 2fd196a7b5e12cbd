# diesel_turso

The Turso side of a query builder, verified with Verus: how values are written
and read, how SQL is rendered, how UNION and STRUCT values look on the wire,
which statements are worth preparing, and what a transaction may do next.

- `src/` is the library. Its functions have contracts, and Verus proves them. Two
  kinds are not proved here: those of the small functions that call an outside
  crate or the standard library, which are believed, and those of the methods of
  `UnionSchema` and `UnionStructPayload`, which the types that implement them
  answer for.
- `tests/` runs the library on concrete values.
- `app/` is ordinary Rust around it: connections, pools, the drivers' rows, and
  what needs floating point. Its functions hand the library plain values and act
  on the plain values that come back.

A float is held as its bit pattern in `src/`. A value of an outside crate that the
library reads is held in a type of its own, and each call into an outside crate is
a small function whose contract says what the call is relied on for.
